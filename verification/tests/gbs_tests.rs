use redstrap::gbs::{build_document, merge_document, read_properties, rewrite_properties, xml_escape, Property};

const SAMPLE: &str = r#"<?xml version="1.0" encoding="utf-8"?>
<roblox version="4">
	<Item class="RenderSettings">
		<Property name="MSAALevel">4</Property>
		<Property name="VSyncDisabled">False</Property>
	</Item>
	<Item class="Other">
		<Property name="Kept">yes</Property>
	</Item>
</roblox>
"#;

fn prop(class: &str, name: &str, value: &str) -> Property {
    Property { class: class.to_string(), name: name.to_string(), value: value.to_string() }
}

#[test]
fn reads_all_properties() {
    let props = read_properties(SAMPLE).expect("parse");
    assert_eq!(props.len(), 3);
    assert_eq!(
        props[0],
        Property {
            class: String::from("RenderSettings"),
            name: String::from("MSAALevel"),
            value: String::from("4"),
        }
    );
}

#[test]
fn merge_replaces_and_appends() {
    // Updates in key order: (RenderSettings, FramerateCap), (RenderSettings, MSAALevel).
    let updates = vec![
        prop("RenderSettings", "FramerateCap", "240"),
        prop("RenderSettings", "MSAALevel", "0"),
    ];
    let merged = merge_document(SAMPLE, &updates).expect("merge");
    let props = read_properties(&merged).expect("reparse");
    let get = |name: &str| {
        props
            .iter()
            .find(|p| p.class == "RenderSettings" && p.name == name)
            .map(|p| p.value.as_str())
    };
    assert_eq!(get("MSAALevel"), Some("0"));
    assert_eq!(get("VSyncDisabled"), Some("False"));
    assert_eq!(get("FramerateCap"), Some("240"));
    assert!(props.iter().any(|p| p.name == "Kept"));
}

#[test]
fn build_creates_valid_document() {
    let updates = vec![prop("RenderSettings", "MSAALevel", "2")];
    let doc = build_document(&updates);
    let props = read_properties(&doc).expect("parse");
    assert_eq!(props.len(), 1);
    assert_eq!(props[0].value, "2");
}

#[test]
fn merge_keeps_untouched_text_byte_for_byte() {
    let merged = merge_document(SAMPLE, &[]).expect("merge");
    assert_eq!(merged, SAMPLE);
}

#[test]
fn merge_appends_missing_keys_before_root_end() {
    let updates = vec![prop("New", "A", "1"), prop("New", "B", "x<y")];
    let merged = merge_document(SAMPLE, &updates).expect("merge");
    assert!(merged.ends_with(
        "\t<Item class=\"New\"><Property name=\"A\">1</Property><Property name=\"B\">x&lt;y</Property></Item>\n</roblox>\n"
    ));
}

#[test]
fn merge_replaces_in_place_with_escaping() {
    let updates = vec![prop("RenderSettings", "VSyncDisabled", "A&B")];
    let merged = merge_document(SAMPLE, &updates).expect("merge");
    assert!(merged.contains("<Property name=\"VSyncDisabled\">A&amp;B</Property>"));
    assert!(!merged.contains("False"));
}

#[test]
fn unparseable_document_is_an_error() {
    let err = read_properties("<roblox><Item class=\"x\"></Other></roblox>").unwrap_err();
    assert_eq!(err.title(), "Settings Error");
    assert!(merge_document("<a></b>", &[]).is_err());
}

#[test]
fn rewrite_rebuilds_blank_or_broken_files() {
    let updates = vec![prop("RenderSettings", "MSAALevel", "2")];
    let fresh = build_document(&updates);
    assert_eq!(rewrite_properties(None, &updates), Some(fresh.clone()));
    assert_eq!(rewrite_properties(Some("  \n"), &updates), Some(fresh.clone()));
    assert_eq!(rewrite_properties(Some("<a></b>"), &updates), Some(fresh));
    assert_eq!(rewrite_properties(Some(SAMPLE), &[]), None);
    let merged = rewrite_properties(Some(SAMPLE), &updates).unwrap();
    assert!(merged.contains("<Property name=\"MSAALevel\">2</Property>"));
}

#[test]
fn escaping_covers_markup_characters() {
    assert_eq!(xml_escape("a&b<c>d\"e'f"), "a&amp;b&lt;c&gt;d&quot;e&apos;f");
}

#[test]
fn fresh_document_groups_by_class() {
    let updates = vec![prop("A", "x", "1"), prop("A", "y", "2"), prop("B", "z", "3")];
    let doc = build_document(&updates);
    assert!(doc.contains(
        "\t<Item class=\"A\">\n\t\t<Property name=\"x\">1</Property>\n\t\t<Property name=\"y\">2</Property>\n\t</Item>\n\t<Item class=\"B\">\n"
    ));
    assert!(doc.ends_with("\t</Item>\n</roblox>\n"));
}
