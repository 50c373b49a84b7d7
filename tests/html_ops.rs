use miragend::dom::{extract_contents, Dom, NodeData, ROOT};
use miragend::html::{build_document, build_fragment, serialize_to_html};

fn element_name(dom: &Dom, i: usize) -> Option<String> {
    match &dom.nodes[i].data {
        NodeData::Element { name, .. } => Some(name.clone()),
        _ => None,
    }
}

#[test]
fn test_build_document() {
    let html = r#"
            <html>
                <head>
                    <title>Test</title>
                </head>
                <body>
                    <div>
                        <p>Hello, World!</p>
                    </div>
                </body>
            </html>"#;

    let dom = build_document(html).unwrap();
    assert!(matches!(dom.nodes[ROOT].data, NodeData::Document));
}

#[test]
fn test_build_fragment() {
    let html = r#"
            <div>
                <p>Hello, World!</p>
            </div>"#;

    let dom = build_fragment(html).unwrap();
    assert!(matches!(dom.nodes[ROOT].data, NodeData::Document));
}

#[test]
fn test_get_element_by_id() {
    let html = r#"
            <html>
                <head>
                    <title>Test</title>
                </head>
                <body>
                    <div id="hello">
                        <p>Hello, World!</p>
                    </div>
                </body>
            </html>"#;

    let dom = build_document(html).unwrap();
    let result = dom.get_element_by_id("hello");
    assert!(result.is_some());
    assert_eq!(element_name(&dom, result.unwrap()).as_deref(), Some("div"));
}

#[test]
fn test_get_head() {
    let html = r#"
            <html>
                <head><title>Test title</title></head>
                <body>
                    <div>
                        <p>Hello, World!</p>
                    </div>
                </body>
            </html>"#;

    let dom = build_document(html).unwrap();
    let result = dom.get_head();
    assert!(result.is_some());
    assert_eq!(element_name(&dom, result.unwrap()).as_deref(), Some("head"));
    assert_eq!(dom.nodes[result.unwrap()].children.len(), 1);
}

#[test]
fn test_find_meta_tags() {
    let html = r#"
            <html>
                <head>
                    <meta property="og:description" content="Some description...">
                    <meta property="og:locale" content="zh-CN">
                    <meta property="og:site_name" content="Site Name">
                    <meta property="og:title" content="Some title... | Site Name">
                    <meta property="og:type" content="article">
                    <meta property="og:url" content="http://...">
                    <meta property="article:modified_time" content="2024-10-24T05:36:47+08:00">
                    <title>Test</title>
                </head>
                <body>
                    <div>
                        <meta property="custom" content="custom/non-standard locations">
                        <p>Hello, World!</p>
                    </div>
                </body>
            </html>"#;

    let dom = build_document(html).unwrap();
    let meta_tags = dom.find_meta_tags();
    assert!(meta_tags.len() == 8);
}

#[test]
fn test_get_attribute() {
    let html = r#"
            <html>
                <head>
                    <title>Test</title>
                </head>
                <body>
                    <div id="hello">
                        <p>Hello, World!</p>
                    </div>
                </body>
            </html>"#;

    let dom = build_document(html).unwrap();
    let div = dom.get_element_by_id("hello").unwrap();
    let id = dom.get_attribute(div, "id");
    assert!(id.is_some());
    assert_eq!(id.unwrap(), "hello");
}

#[test]
fn test_set_attribute() {
    let html = r#"
            <html>
                <head>
                    <title>Test</title>
                </head>
                <body>
                    <div id="hello">
                        <p>Hello, World!</p>
                    </div>
                </body>
            </html>"#;

    let mut dom = build_document(html).unwrap();
    let div = dom.get_element_by_id("hello").unwrap();
    dom.set_attribute(div, "id", "world".to_string());
    let id = dom.get_attribute(div, "id");
    assert!(id.is_some());
    assert_eq!(id.unwrap(), "world");
}

#[test]
fn test_extract_contents() {
    let html =
        "<html><head><title>Test</title></head><body><div><p>Hello, World!</p></div></body></html>";

    let dom = build_document(html).unwrap();
    let contents = extract_contents(&dom, ROOT);
    assert_eq!(element_name(&dom, contents[0]).as_deref(), Some("head"));
    assert_eq!(element_name(&dom, contents[1]).as_deref(), Some("body"));
    assert_eq!(contents.len(), 2);
}

#[test]
fn test_serialize_to_html() {
    let html =
        "<html><head><title>Test</title></head><body><div><p id=\"hello\">Hello, World!</p></div></body></html>";

    let mut dom = build_document(html).unwrap();
    if let Some(hello_node) = dom.get_element_by_id("hello") {
        let text = dom.push_node(NodeData::Text { contents: "Good bye!".to_string() });
        dom.replace_children(hello_node, vec![text]);
    }
    let result = serialize_to_html(&dom);
    assert!(result.is_some());
    assert_eq!(
        result.unwrap(),
        "<html><head><title>Test</title></head><body><div><p id=\"hello\">Good bye!</p></div></body></html>"
    );
}
