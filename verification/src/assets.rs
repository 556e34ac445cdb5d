//! The static files of the panel's web page: where each is served, which file
//! holds it, and its content type.
use vstd::prelude::*;

verus! {

/// A static file of the panel's web page.
#[derive(Debug, Clone, Copy, PartialEq, Eq)]
pub enum StaticAsset {
    IndexHtml,
    IndexMjs,
    IndexCss,
}

/// Every static file, in the order the routes are set up.
pub fn static_assets() -> (assets: Vec<StaticAsset>)
    ensures
        assets@ == seq![StaticAsset::IndexHtml, StaticAsset::IndexMjs, StaticAsset::IndexCss],
{
    let assets = vec![StaticAsset::IndexHtml, StaticAsset::IndexMjs, StaticAsset::IndexCss];
    assert(assets@ =~= seq![StaticAsset::IndexHtml, StaticAsset::IndexMjs, StaticAsset::IndexCss]);
    assets
}

impl StaticAsset {
    /// The path the file is served at.
    pub fn route(&self) -> (r: String)
        ensures
            r@ == match self {
                StaticAsset::IndexHtml => "/"@,
                StaticAsset::IndexMjs => "/index.mjs"@,
                StaticAsset::IndexCss => "/index.css"@,
            },
    {
        match self {
            StaticAsset::IndexHtml => String::from_str("/"),
            StaticAsset::IndexMjs => String::from_str("/index.mjs"),
            StaticAsset::IndexCss => String::from_str("/index.css"),
        }
    }

    /// The file that holds it, relative to the working directory.
    pub fn file_path(&self) -> (r: String)
        ensures
            r@ == match self {
                StaticAsset::IndexHtml => "src/index.html"@,
                StaticAsset::IndexMjs => "src/index.mjs"@,
                StaticAsset::IndexCss => "src/index.css"@,
            },
    {
        match self {
            StaticAsset::IndexHtml => String::from_str("src/index.html"),
            StaticAsset::IndexMjs => String::from_str("src/index.mjs"),
            StaticAsset::IndexCss => String::from_str("src/index.css"),
        }
    }

    /// The value of its `content-type` header.
    pub fn content_type(&self) -> (r: String)
        ensures
            r@ == match self {
                StaticAsset::IndexHtml => "text/html; charset=utf-8"@,
                StaticAsset::IndexMjs => "application/javascript;charset=utf-8"@,
                StaticAsset::IndexCss => "text/css;charset=utf-8"@,
            },
    {
        match self {
            StaticAsset::IndexHtml => String::from_str("text/html; charset=utf-8"),
            StaticAsset::IndexMjs => String::from_str("application/javascript;charset=utf-8"),
            StaticAsset::IndexCss => String::from_str("text/css;charset=utf-8"),
        }
    }
}

} // verus!
