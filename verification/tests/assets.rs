use stratego::assets::{
    index_html, output_mentions, pick_bundle_files, trim, wasm_bindgen_version, BundleError,
    LockError,
};
use stratego::graphics::{
    artwork_id, artwork_sheet, color_map, css_rule, has_fill_attribute, inject_fill_on_svg_root,
    is_color_svg_name, replace_color, replace_hex_color_ci, replace_short_hex_color,
    svg_to_data_uri, trim_svg_extension,
};
use stratego::sheet::{bytes_equal, bytes_less, RuleSheet};

fn text(v: Vec<u8>) -> String {
    String::from_utf8(v).unwrap()
}

// ----- Recolouring -----

#[test]
fn long_codes_are_replaced_in_any_case() {
    let out = replace_hex_color_ci(b"a#000000b#000000", b"#000000", b"#0000ff");
    assert_eq!(text(out), "a#0000ffb#0000ff");
    let out = replace_hex_color_ci(b"x#abcdefY#ABCDEF", b"#AbCdEf", b"#111111");
    assert_eq!(text(out), "x#111111Y#111111");
    let out = replace_hex_color_ci(b"#00000", b"#000000", b"#0000ff");
    assert_eq!(text(out), "#00000");
}

#[test]
fn short_codes_are_replaced_unless_a_digit_follows() {
    let out = replace_short_hex_color(b"#000;#0000ff;#000", b"#000", b"#bf0000");
    assert_eq!(text(out), "#bf0000;#0000ff;#bf0000");
    let out = replace_short_hex_color(b"#000a", b"#000", b"#bf0000");
    assert_eq!(text(out), "#000a");
    let out = replace_short_hex_color(b"#000g", b"#000", b"#bf0000");
    assert_eq!(text(out), "#bf0000g");
}

#[test]
fn fill_attributes_are_recognised() {
    assert!(has_fill_attribute(b"<svg fill=\"red\""));
    assert!(has_fill_attribute(b"<svg fill = \"red\""));
    assert!(has_fill_attribute(b"<svg fill\t\t=1"));
    assert!(has_fill_attribute(b"<svg fill-rule=\"a\" fill=\"b\""));
    assert!(!has_fill_attribute(b"<svg fill-rule=\"a\""));
    assert!(!has_fill_attribute(b"<svg xmlns=\"a\""));
    assert!(!has_fill_attribute(b"<svg fill"));
    assert!(!has_fill_attribute(b"<svg fill\n=1"));
    assert!(!has_fill_attribute(b"<svg fill x=1"));
}

#[test]
fn a_fill_is_written_into_the_root_tag() {
    let out = inject_fill_on_svg_root(b"<svg xmlns=\"a\"><path/></svg>", b"#bf0000");
    assert_eq!(text(out), "<svg fill=\"#bf0000\" xmlns=\"a\"><path/></svg>");
    let out = inject_fill_on_svg_root(b"<?xml?><SVG width=\"1\">", b"#bf0000");
    assert_eq!(text(out), "<?xml?><SVG fill=\"#bf0000\" width=\"1\">");
    let out = inject_fill_on_svg_root(b"<svg FILL=\"red\">", b"#bf0000");
    assert_eq!(text(out), "<svg FILL=\"red\">");
    let out = inject_fill_on_svg_root(b"<svg width=\"1\"", b"#bf0000");
    assert_eq!(text(out), "<svg width=\"1\"");
    let out = inject_fill_on_svg_root(b"<path/>", b"#bf0000");
    assert_eq!(text(out), "<path/>");
}

#[test]
fn artwork_is_recoloured() {
    let svg = b"<svg><path fill=\"#000000\"/><path stroke=\"#000\"/></svg>";
    let out = replace_color(svg, b"#0000ff");
    assert_eq!(
        text(out),
        "<svg fill=\"#0000ff\"><path fill=\"#0000ff\"/><path stroke=\"#0000ff\"/></svg>"
    );
}

// ----- Rules -----

#[test]
fn data_uris_are_base64() {
    assert_eq!(text(svg_to_data_uri(b"abc")), "data:image/svg+xml;base64,YWJj");
    assert_eq!(text(svg_to_data_uri(b"<svg/>")), "data:image/svg+xml;base64,PHN2Zy8+");
    assert_eq!(text(svg_to_data_uri(b"")), "data:image/svg+xml;base64,");
}

#[test]
fn a_rule_names_its_class_and_image() {
    assert_eq!(
        text(css_rule(b"board", b"data:x")),
        ".image-board { background-image: url(\"data:x\"); background-repeat: no-repeat; }"
    );
}

#[test]
fn file_names_give_classes() {
    assert_eq!(text(trim_svg_extension(b"tree1.svg")), "tree1");
    assert_eq!(text(trim_svg_extension(b"x.svg.svg")), "x");
    assert_eq!(text(trim_svg_extension(b"plain")), "plain");
    assert_eq!(text(trim_svg_extension(b".svg")), "");
    assert!(is_color_svg_name(b"3.colors-black-blue-red.svg"));
    assert!(!is_color_svg_name(b"3.svg"));
    assert_eq!(text(artwork_id(b"3.colors-black-blue-red.svg")), "3");
    assert_eq!(text(artwork_id(b".colors-black-blue-red.svg")), "");
}

#[test]
fn the_palette_has_three_colours() {
    let colors = color_map();
    let named: Vec<(String, String)> =
        colors.into_iter().map(|(n, c)| (text(n), text(c))).collect();
    assert_eq!(
        named,
        vec![
            ("black".to_string(), "#000000".to_string()),
            ("blue".to_string(), "#0000ff".to_string()),
            ("red".to_string(), "#bf0000".to_string()),
        ]
    );
}

fn rule(class: &str, b64: &str) -> String {
    format!(
        ".image-{} {{ background-image: url(\"data:image/svg+xml;base64,{}\"); background-repeat: no-repeat; }}",
        class, b64
    )
}

#[test]
fn the_sheet_holds_a_rule_per_scenery_file_and_colour() {
    let scenery = vec![(b"board.svg".to_vec(), b"<svg/>".to_vec())];
    let pieces = vec![(b"1.colors-black-blue-red.svg".to_vec(), b"<svg/>".to_vec())];
    let ranks: Vec<(Vec<u8>, Vec<u8>)> = Vec::new();
    let sheet = artwork_sheet(&scenery, &pieces, &ranks);
    assert_eq!(sheet.len(), 4);
    let expected = [
        rule("board", "PHN2Zy8+"),
        rule("1-black", "PHN2ZyBmaWxsPSIjMDAwMDAwIi8+"),
        rule("1-blue", "PHN2ZyBmaWxsPSIjMDAwMGZmIi8+"),
        rule("1-red", "PHN2ZyBmaWxsPSIjYmYwMDAwIi8+"),
    ]
    .join("\n");
    assert_eq!(text(sheet.css()), expected);
}

#[test]
fn the_sheet_is_ordered_by_key() {
    let svg = b"<svg/>".to_vec();
    let scenery = vec![(b"z.svg".to_vec(), svg.clone())];
    let pieces = vec![
        (b"a-c.colors-black-blue-red.svg".to_vec(), svg.clone()),
        (b"a.colors-black-blue-red.svg".to_vec(), svg.clone()),
    ];
    let ranks = vec![(b"a.colors-black-blue-red.svg".to_vec(), svg.clone())];
    let sheet = artwork_sheet(&scenery, &pieces, &ranks);
    assert_eq!(sheet.len(), 10);
    let css = text(sheet.css());
    let classes: Vec<&str> = css
        .lines()
        .map(|l| l.trim_start_matches(".image-").split(' ').next().unwrap())
        .collect();
    assert_eq!(
        classes,
        vec![
            "z", "a-black", "a-blue", "a-c-black", "a-c-blue", "a-c-red", "a-red", "a-black",
            "a-blue", "a-red"
        ]
    );
}

#[test]
fn a_later_rule_replaces_one_with_the_same_key() {
    let mut sheet = RuleSheet::new();
    sheet.insert(b"b".to_vec(), b"first b".to_vec());
    sheet.insert(b"a".to_vec(), b"a".to_vec());
    sheet.insert(b"b".to_vec(), b"second b".to_vec());
    sheet.insert(b"ab".to_vec(), b"ab".to_vec());
    assert_eq!(sheet.len(), 3);
    assert_eq!(text(sheet.css()), "a\nab\nsecond b");
    assert_eq!(text(RuleSheet::new().css()), "");
}

#[test]
fn bytes_are_ordered_lexicographically() {
    assert!(bytes_less(b"a", b"b"));
    assert!(bytes_less(b"a", b"ab"));
    assert!(bytes_less(b"", b"a"));
    assert!(bytes_less(b"1-a-black", b"1-a-c-black"));
    assert!(!bytes_less(b"b", b"a"));
    assert!(!bytes_less(b"a", b"a"));
    assert!(!bytes_less(b"ab", b"a"));
    assert!(bytes_equal(b"ab", b"ab"));
    assert!(!bytes_equal(b"ab", b"abc"));
}

// ----- Client assets -----

#[test]
fn the_index_page_loads_the_bundle() {
    let page = text(index_html(b"client.js", b"client_bg.wasm"));
    let expected = format!(
        r#"<!DOCTYPE html>
<html lang="en">
<head>
  <title>stratego.io</title>
  <meta charset="UTF-8">
  <meta name="viewport" content="width=device-width, initial-scale=1">
  <meta name="description" content="Open source HTML5 app that is a recreation of the classic game of Stratego">
  <link rel="icon" type="image/x-icon" href="/favicon.ico" />
  <link href="https://fonts.googleapis.com/css?family=Open+Sans" rel="stylesheet" type="text/css">
  <link rel="stylesheet" type="text/css" href="/style/graphics.css">
  <link rel="stylesheet" type="text/css" href="/style/main.css">
  <link rel="modulepreload" href="/{js}">
  <link rel="preload" href="/{wasm}" as="fetch" type="application/wasm" crossorigin>
</head>
<body class="pace-done">
<script type="module">
import init from '/{js}';
await init({{ module_or_path: '/{wasm}' }});
</script>
</body>
</html>"#,
        js = "client.js",
        wasm = "client_bg.wasm",
    );
    assert_eq!(page, expected);
}

fn names(list: &[&str]) -> Vec<Vec<u8>> {
    list.iter().map(|n| n.as_bytes().to_vec()).collect()
}

#[test]
fn the_last_script_and_module_are_picked() {
    let (js, wasm) =
        pick_bundle_files(&names(&["a.js", "style", "client_bg.wasm", "client.js"])).unwrap();
    assert_eq!(text(js), "client.js");
    assert_eq!(text(wasm), "client_bg.wasm");
    assert_eq!(
        pick_bundle_files(&names(&["client_bg.wasm", "x.wasm"])),
        Err(BundleError::NoScript)
    );
    assert_eq!(pick_bundle_files(&names(&["client.js", "x.wasm"])), Err(BundleError::NoModule));
    assert_eq!(BundleError::NoScript.message(), "No .js file found in dist");
    assert_eq!(BundleError::NoModule.message(), "No _bg.wasm file found in dist");
}

#[test]
fn whitespace_is_trimmed_at_both_ends() {
    assert_eq!(text(trim(b"  a b \t\r")), "a b");
    assert_eq!(text(trim("\u{a0}x\u{3000}".as_bytes())), "x");
    assert_eq!(text(trim(b" \n ")), "");
    assert_eq!(text(trim(b"x")), "x");
}

const LOCK: &str = "# generated\nversion = 3\n\n[[package]]\nname = \"wasm-bindgen-macro\"\nversion = \"9.9.9\"\n\n[[package]]\nname = \"wasm-bindgen\"\nversion = \"0.2.114\"\nsource = \"registry\"\n";

#[test]
fn the_generator_version_is_read_from_the_lock_file() {
    assert_eq!(text(wasm_bindgen_version(LOCK.as_bytes()).unwrap()), "0.2.114");
    let crlf = LOCK.replace('\n', "\r\n");
    assert_eq!(text(wasm_bindgen_version(crlf.as_bytes()).unwrap()), "0.2.114");
    let last_line = "[[package]]\n  name = \"wasm-bindgen\"  \n version = \"1.0\"";
    assert_eq!(text(wasm_bindgen_version(last_line.as_bytes()).unwrap()), "1.0");
}

#[test]
fn a_missing_or_malformed_version_is_an_error() {
    assert_eq!(wasm_bindgen_version(b""), Err(LockError::NotFound));
    let other = "[[package]]\nname = \"serde\"\nversion = \"1.0\"\n";
    assert_eq!(wasm_bindgen_version(other.as_bytes()), Err(LockError::NotFound));
    let unquoted = "[[package]]\nname = \"wasm-bindgen\"\nversion = 0.2\n";
    assert_eq!(wasm_bindgen_version(unquoted.as_bytes()), Err(LockError::Unparsable));
    let open = "[[package]]\nname = \"wasm-bindgen\"\nversion = \"";
    assert_eq!(wasm_bindgen_version(open.as_bytes()), Err(LockError::Unparsable));
    let reset = "name = \"wasm-bindgen\"\n[[package]]\nversion = \"1.0\"\n";
    assert_eq!(wasm_bindgen_version(reset.as_bytes()), Err(LockError::NotFound));
    assert_eq!(
        LockError::NotFound.message(),
        "wasm-bindgen not found in Cargo.lock"
    );
    assert_eq!(
        LockError::Unparsable.message(),
        "Failed to parse wasm-bindgen version from Cargo.lock"
    );
}

#[test]
fn the_reported_version_is_searched_for() {
    assert!(output_mentions(b"wasm-bindgen 0.2.114\n", b"0.2.114"));
    assert!(!output_mentions(b"wasm-bindgen 0.2.100\n", b"0.2.11"));
    assert!(output_mentions(b"x", b""));
    assert!(!output_mentions(b"0.2", b"0.2.1"));
    assert!(output_mentions(b"0.2.1", b"0.2.1"));
}
