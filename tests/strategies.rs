use miragend::content::load_patch_html;
use miragend::dom::{Dom, NodeData};
use miragend::html::{build_document, serialize_to_html};
use miragend::obfuscation::{CharactersMapper, ObfuscatorConfig};
use miragend::patch::{
    apply_patch, inject_online_script, remove_children, remove_doc_metas, splice_fragment,
};
use miragend::walker::{collect_obfuscation_nodes, obfuscate_doc_metas, obfuscate_document, ObfuscationRules};

fn letters_config() -> ObfuscatorConfig {
    ObfuscatorConfig {
        mappers: vec![
            CharactersMapper {
                source_start: 'A',
                source_end: 'Z',
                target_start: 'Q',
                target_end: 'Q',
                comment: "upper".to_string(),
            },
            CharactersMapper {
                source_start: 'a',
                source_end: 'z',
                target_start: 'q',
                target_end: 'q',
                comment: "lower".to_string(),
            },
        ],
    }
}

fn rules() -> ObfuscationRules {
    ObfuscationRules {
        ignore_title: false,
        ignore_nodes: vec![],
        ignore_after_node: String::new(),
        ignore_len: 0,
    }
}

fn strings(v: &[&str]) -> Vec<String> {
    v.iter().map(|s| s.to_string()).collect()
}

fn html_of(dom: &Dom) -> String {
    serialize_to_html(dom).unwrap()
}

#[test]
fn patch_splices_fragment_into_target() {
    let mut dom = build_document("<div id=\"X\"></div>").unwrap();
    assert!(splice_fragment(&mut dom, "X", "<p>Y</p>"));
    let x = dom.get_element_by_id("X").unwrap();
    let kids = dom.nodes[x].children.clone();
    assert_eq!(kids.len(), 1);
    assert!(matches!(&dom.nodes[kids[0]].data, NodeData::Element { name, .. } if name == "p"));
    assert_eq!(html_of(&dom), "<html><head></head><body><div id=\"X\"><p>Y</p></div></body></html>");
}

#[test]
fn patch_missing_target_keeps_document() {
    let page = "<html><head><meta name=\"robots\" content=\"x\"></head><body><div id=\"X\">a</div><div id=\"Z\">b</div></body></html>";
    let mut dom = build_document(page).unwrap();
    let before = html_of(&dom);
    assert!(!splice_fragment(&mut dom, "missing-id", "<p>Y</p>"));
    assert_eq!(html_of(&dom), before);
    apply_patch(&mut dom, "missing-id", "<p>Y</p>", &strings(&["Z"]), &strings(&["robots"]));
    assert_eq!(
        html_of(&dom),
        "<html><head></head><body><div id=\"X\">a</div><div id=\"Z\"></div></body></html>"
    );
}

#[test]
fn patch_all_steps() {
    let page = "<html><head><meta name=\"description\" content=\"d\"><meta property=\"og:title\" content=\"t\"><meta name=\"keep\" content=\"k\"><title>T</title></head><body><main id=\"m\">old</main><aside id=\"a\"><p>ad</p></aside></body></html>";
    let mut dom = build_document(page).unwrap();
    apply_patch(
        &mut dom,
        "m",
        "<h1>New</h1><p>text</p>",
        &strings(&["a", "nothing"]),
        &strings(&["description", "og:title"]),
    );
    assert_eq!(
        html_of(&dom),
        "<html><head><meta name=\"keep\" content=\"k\"><title>T</title></head><body><main id=\"m\"><h1>New</h1><p>text</p></main><aside id=\"a\"></aside></body></html>"
    );
}

#[test]
fn remove_children_and_metas_alone() {
    let mut dom = build_document("<html><head><meta name=\"a\"></head><body><div id=\"d\"><b>x</b></div></body></html>").unwrap();
    assert!(remove_children(&mut dom, "d"));
    assert!(!remove_children(&mut dom, "none"));
    remove_doc_metas(&mut dom, &strings(&["b"]));
    assert_eq!(html_of(&dom), "<html><head><meta name=\"a\"></head><body><div id=\"d\"></div></body></html>");
    remove_doc_metas(&mut dom, &strings(&["a"]));
    assert_eq!(html_of(&dom), "<html><head></head><body><div id=\"d\"></div></body></html>");
}

#[test]
fn script_injection_into_head() {
    let mut dom = build_document("<html><head><title>T</title></head><body></body></html>").unwrap();
    inject_online_script(&mut dom, "https://cdn.example/s.js");
    assert_eq!(
        html_of(&dom),
        "<html><head><title>T</title><script src=\"https://cdn.example/s.js\"></script>\n</head><body></body></html>"
    );
}

#[test]
fn obfuscation_of_meta_and_text() {
    let page = "<html><head><meta name=\"description\" content=\"A\"><meta name=\"other\" content=\"B\"></head><body>Hello</body></html>";
    let mut dom = build_document(page).unwrap();
    obfuscate_document(&mut dom, &letters_config(), &rules(), &strings(&["description"]));
    assert_eq!(
        html_of(&dom),
        "<html><head><meta name=\"description\" content=\"Q\"><meta name=\"other\" content=\"B\"></head><body>Qqqqq</body></html>"
    );
}

#[test]
fn meta_selected_by_property_once() {
    let page = "<html><head><meta name=\"description\" property=\"og:description\" content=\"Ab 1\"></head><body></body></html>";
    let mut dom = build_document(page).unwrap();
    obfuscate_doc_metas(&mut dom, &letters_config(), &strings(&["og:description"]));
    assert_eq!(
        html_of(&dom),
        "<html><head><meta name=\"description\" property=\"og:description\" content=\"Qq 1\"></head><body></body></html>"
    );
}

#[test]
fn obfuscation_exclusion_rules() {
    let page = "<html><head><title>Title</title><style>a{}</style></head><body><div id=\"keep\">Keep</div><script>var x</script><p>ab</p><div id=\"start\">cd ef</div><p>gh</p></body></html>";
    let mut dom = build_document(page).unwrap();
    let r = ObfuscationRules {
        ignore_title: true,
        ignore_nodes: strings(&["keep"]),
        ignore_after_node: "start".to_string(),
        ignore_len: 3,
    };
    obfuscate_document(&mut dom, &letters_config(), &r, &strings(&[]));
    assert_eq!(
        html_of(&dom),
        "<html><head><title>Title</title><style>a{}</style></head><body><div id=\"keep\">Keep</div><script>var x</script><p>qq</p><div id=\"start\">cd eq</div><p>qq</p></body></html>"
    );
}

#[test]
fn zone_budget_is_shared_across_text_nodes() {
    let page = "<html><head></head><body><div id=\"s\"><p>ab</p><p>cd</p></div></body></html>";
    let mut dom = build_document(page).unwrap();
    let r = ObfuscationRules {
        ignore_title: false,
        ignore_nodes: vec![],
        ignore_after_node: "s".to_string(),
        ignore_len: 3,
    };
    let plan = collect_obfuscation_nodes(&dom, &r);
    assert_eq!(plan.len(), 2);
    assert!(plan.iter().all(|(_, zone)| *zone));
    obfuscate_document(&mut dom, &letters_config(), &r, &strings(&[]));
    assert_eq!(
        html_of(&dom),
        "<html><head></head><body><div id=\"s\"><p>ab</p><p>cq</p></div></body></html>"
    );
}

#[test]
fn title_kept_only_once() {
    let page = "<html><head><title>ab</title></head><body><svg><title>cd</title></svg></body></html>";
    let mut dom = build_document(page).unwrap();
    let mut r = rules();
    r.ignore_title = true;
    obfuscate_document(&mut dom, &letters_config(), &r, &strings(&[]));
    let out = html_of(&dom);
    assert!(out.contains("<title>ab</title>"));
    assert!(out.contains("<title>qq</title>"));
}

#[test]
fn patch_content_sources() {
    assert_eq!(load_patch_html("", None, "# Hi", "<b>x</b>"), "<h1>Hi</h1>\n");
    assert_eq!(load_patch_html("p.md", Some("*e*".to_string()), "# Hi", "<b>x</b>"), "<p><em>e</em></p>\n");
    assert_eq!(load_patch_html("p.md", None, "# Hi", "<b>x</b>"), "<h1>Hi</h1>\n");
    assert_eq!(load_patch_html("p.html", Some("<i>y</i>".to_string()), "# Hi", "<b>x</b>"), "<i>y</i>");
    assert_eq!(load_patch_html("p.html", None, "# Hi", "<b>x</b>"), "<b>x</b>");
    assert_eq!(
        load_patch_html("p.txt", Some("a\r\nb\n\nc\r".to_string()), "", ""),
        "\n<p>a</p>\n<p>b</p>\n<p></p>\n<p>c\r</p>"
    );
    assert_eq!(load_patch_html("p.txt", None, "", ""), "\n<p>Hello from Miragend!</p>");
    assert_eq!(load_patch_html("p.txt", Some(String::new()), "", ""), "");
}

#[test]
fn find_by_id_is_repeatable() {
    let dom = build_document("<div id=\"a\"><p id=\"b\">x</p></div><span id=\"b\"></span>").unwrap();
    let first = dom.get_element_by_id("b");
    assert!(first.is_some());
    for _ in 0..5 {
        assert_eq!(dom.get_element_by_id("b"), first);
    }
    assert!(matches!(&dom.nodes[first.unwrap()].data, NodeData::Element { name, .. } if name == "p"));
    assert_eq!(dom.get_element_by_id("nope"), None);
}

#[test]
fn replace_children_reads_back() {
    let mut dom = build_document("<div id=\"a\"><i>1</i></div>").unwrap();
    let a = dom.get_element_by_id("a").unwrap();
    let x = dom.push_node(NodeData::Text { contents: "x".to_string() });
    let y = dom.push_node(NodeData::Comment { contents: "y".to_string() });
    dom.replace_children(a, vec![y, x]);
    assert_eq!(dom.nodes[a].children, vec![y, x]);
    assert_eq!(html_of(&dom), "<html><head></head><body><div id=\"a\"><!--y-->x</div></body></html>");
}
