use phaneron_switcher::assets::{static_assets, StaticAsset};

#[test]
fn all_assets_in_order() {
    assert_eq!(static_assets(), vec![StaticAsset::IndexHtml, StaticAsset::IndexMjs, StaticAsset::IndexCss]);
}

#[test]
fn index_html() {
    let a = StaticAsset::IndexHtml;
    assert_eq!(a.route(), "/");
    assert_eq!(a.file_path(), "src/index.html");
    assert_eq!(a.content_type(), "text/html; charset=utf-8");
}

#[test]
fn index_mjs() {
    let a = StaticAsset::IndexMjs;
    assert_eq!(a.route(), "/index.mjs");
    assert_eq!(a.file_path(), "src/index.mjs");
    assert_eq!(a.content_type(), "application/javascript;charset=utf-8");
}

#[test]
fn index_css() {
    let a = StaticAsset::IndexCss;
    assert_eq!(a.route(), "/index.css");
    assert_eq!(a.file_path(), "src/index.css");
    assert_eq!(a.content_type(), "text/css;charset=utf-8");
}
