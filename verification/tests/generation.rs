use alphavantage::client::AlphavantageClient;
use alphavantage::client::MockClient;
use alphavantage::client::RequestClient;
use alphavantage::doc::Doc;
use alphavantage::emit::emit_implementation;
use alphavantage::emit::emit_interface;
use alphavantage::emit::generate;
use alphavantage::emit::operation_inputs;
use alphavantage::emit::operation_signature;
use alphavantage::emit::substitution_args;
use alphavantage::emit::url_template;
use alphavantage::extract::extract_function;
use alphavantage::extract::extract_parameter;
use alphavantage::extract::extract_parameters;
use alphavantage::extract::scan_document;
use alphavantage::extract::visible_siblings;
use alphavantage::model::GenError;
use alphavantage::model::ParameterNecessity;

fn text(d: &mut Doc, s: &str) -> usize {
    d.add_text(s.to_string())
}

fn el(d: &mut Doc, tag: &str, kids: Vec<usize>) -> usize {
    d.add_element(tag.to_string(), Vec::new(), kids)
}

fn el_attr(d: &mut Doc, tag: &str, name: &str, value: &str, kids: Vec<usize>) -> usize {
    d.add_element(tag.to_string(), vec![(name.to_string(), value.to_string())], kids)
}

fn def_node(d: &mut Doc, word: &str, code: &str) -> usize {
    let t = text(d, word);
    let c = text(d, code);
    let code_el = el(d, "code", vec![c]);
    el(d, "p", vec![t, code_el])
}

fn elab_node(d: &mut Doc, code: Option<&str>) -> usize {
    match code {
        Some(s) => {
            let c = text(d, s);
            let ce = el(d, "code", vec![c]);
            el(d, "p", vec![ce])
        },
        None => {
            let t = text(d, "further details");
            el(d, "p", vec![t])
        },
    }
}

fn minimal_doc() -> Doc {
    let mut d = Doc::new();
    let title_t = text(&mut d, "Quotes & Info");
    let h2 = el(&mut d, "h2", vec![title_t]);
    let ht = text(&mut d, "Current Price");
    let h4 = el(&mut d, "h4", vec![ht]);
    let desc_t = text(&mut d, "Returns the price.");
    let desc = el(&mut d, "p", vec![desc_t]);
    let h6a_t = text(&mut d, "API Parameters");
    let h6a = el(&mut d, "h6", vec![h6a_t]);
    let def1 = def_node(&mut d, "Required: ", "symbol");
    let elab1 = elab_node(&mut d, None);
    let def2 = def_node(&mut d, "Optional: ", "interval");
    let elab2 = elab_node(&mut d, Some("interval=1min"));
    let def3 = def_node(&mut d, "Required: ", "apikey");
    let elab3 = elab_node(&mut d, None);
    let def4 = def_node(&mut d, "Required: ", "function");
    let elab4 = elab_node(&mut d, None);
    let h6b_t = text(&mut d, "Examples");
    let h6b = el(&mut d, "h6", vec![h6b_t]);
    let section = el(
        &mut d,
        "section",
        vec![h2, h4, desc, h6a, def1, elab1, def2, elab2, def3, elab3, def4, elab4, h6b],
    );
    let article = el(&mut d, "article", vec![section]);
    let container = el_attr(&mut d, "div", "class", "container-fluid", vec![article]);
    let root = el(&mut d, "html", vec![container]);
    d.set_root(root);
    d
}

#[test]
fn required_symbol_parameter() {
    let mut d = Doc::new();
    let def = def_node(&mut d, "Required: ", "symbol");
    let elab = elab_node(&mut d, None);
    let root = el(&mut d, "html", vec![def, elab]);
    d.set_root(root);
    let p = extract_parameter(&d, def, elab).unwrap().unwrap();
    assert_eq!(p.name, "symbol");
    assert!(matches!(p.necessity, ParameterNecessity::Required));
}

#[test]
fn optional_parameter_takes_default_from_elaboration() {
    let mut d = Doc::new();
    let def = def_node(&mut d, "Optional: ", "outputsize");
    let elab = elab_node(&mut d, Some("outputsize=compact"));
    let root = el(&mut d, "html", vec![def, elab]);
    d.set_root(root);
    let p = extract_parameter(&d, def, elab).unwrap().unwrap();
    assert_eq!(p.name, "outputsize");
    assert!(matches!(p.necessity, ParameterNecessity::Optional(ref v) if v == "compact"));
}

#[test]
fn datatype_parameter_is_dropped() {
    let mut d = Doc::new();
    let def = def_node(&mut d, "Required: ", "datatype");
    let elab = elab_node(&mut d, None);
    let root = el(&mut d, "html", vec![def, elab]);
    d.set_root(root);
    assert!(extract_parameter(&d, def, elab).unwrap().is_none());
}

#[test]
fn definition_without_code_is_fatal() {
    let mut d = Doc::new();
    let t = text(&mut d, "Required: something");
    let def = el(&mut d, "p", vec![t]);
    let elab = elab_node(&mut d, None);
    let root = el(&mut d, "html", vec![def, elab]);
    d.set_root(root);
    assert_eq!(extract_parameter(&d, def, elab).unwrap_err(), GenError::MissingParameterName);
}

#[test]
fn optional_without_code_default_is_fatal() {
    let mut d = Doc::new();
    let def = def_node(&mut d, "Optional: ", "interval");
    let elab = elab_node(&mut d, None);
    let root = el(&mut d, "html", vec![def, elab]);
    d.set_root(root);
    assert_eq!(extract_parameter(&d, def, elab).unwrap_err(), GenError::MissingDefault);
}

#[test]
fn default_without_separator_is_fatal() {
    let mut d = Doc::new();
    let def = def_node(&mut d, "Optional: ", "interval");
    let elab = elab_node(&mut d, Some("compact"));
    let root = el(&mut d, "html", vec![def, elab]);
    d.set_root(root);
    assert_eq!(extract_parameter(&d, def, elab).unwrap_err(), GenError::MissingDefault);
}

#[test]
fn unlabelled_parameter_is_fatal() {
    let mut d = Doc::new();
    let def = def_node(&mut d, "Mandatory: ", "symbol");
    let elab = elab_node(&mut d, None);
    let root = el(&mut d, "html", vec![def, elab]);
    d.set_root(root);
    assert_eq!(extract_parameter(&d, def, elab).unwrap_err(), GenError::UnknownNecessity);
}

#[test]
fn definition_without_partner_is_fatal() {
    let mut d = Doc::new();
    let def = def_node(&mut d, "Required: ", "symbol");
    let root = el(&mut d, "html", vec![def]);
    d.set_root(root);
    let v = vec![def];
    assert_eq!(extract_parameters(&d, &v, 0, 1).unwrap_err(), GenError::UnpairedDefinition);
}

#[test]
fn subtree_text_concatenates_in_order() {
    let mut d = Doc::new();
    let a = text(&mut d, "Hello ");
    let b = text(&mut d, "world");
    let inner = el(&mut d, "b", vec![b]);
    let p = el(&mut d, "p", vec![a, inner]);
    d.set_root(p);
    assert_eq!(d.text_content(p), "Hello world");
}

#[test]
fn visible_siblings_skip_text_and_breaks() {
    let mut d = Doc::new();
    let t1 = text(&mut d, "\n  ");
    let br = el(&mut d, "br", vec![]);
    let pt = text(&mut d, "kept");
    let p = el(&mut d, "p", vec![pt]);
    let parent = el(&mut d, "div", vec![t1, br, p]);
    d.set_root(parent);
    let vis = visible_siblings(&d, parent, 0);
    assert_eq!(vis, vec![p]);
}

#[test]
fn description_joins_visible_nodes_with_spaces() {
    let mut d = Doc::new();
    let ht = text(&mut d, "Thing");
    let h4 = el(&mut d, "h4", vec![ht]);
    let a_t = text(&mut d, "First part.");
    let a = el(&mut d, "p", vec![a_t]);
    let b_t = text(&mut d, "Second part.");
    let b = el(&mut d, "p", vec![b_t]);
    let parent = el(&mut d, "section", vec![h4, a, b]);
    d.set_root(parent);
    let f = extract_function(&d, parent, 0).unwrap();
    assert_eq!(f.description, "First part. Second part.");
    assert!(f.parameters.is_empty());
}

#[test]
fn childless_function_heading_is_fatal() {
    let mut d = Doc::new();
    let h4 = el(&mut d, "h4", vec![]);
    let parent = el(&mut d, "section", vec![h4]);
    d.set_root(parent);
    assert_eq!(extract_function(&d, parent, 0).unwrap_err(), GenError::MissingFunctionHeading);
}

#[test]
fn empty_document_has_no_main_content() {
    let d = Doc::new();
    assert_eq!(scan_document(&d).unwrap_err(), GenError::MissingMainContent);
}

#[test]
fn missing_layout_container_is_fatal() {
    let mut d = Doc::new();
    let sec = el(&mut d, "section", vec![]);
    let article = el(&mut d, "article", vec![sec]);
    let root = el(&mut d, "html", vec![article]);
    d.set_root(root);
    assert_eq!(scan_document(&d).unwrap_err(), GenError::MissingMainContent);
}

#[test]
fn section_without_heading_is_fatal() {
    let mut d = Doc::new();
    let sec = el(&mut d, "section", vec![]);
    let article = el(&mut d, "article", vec![sec]);
    let container = el_attr(&mut d, "div", "class", "container-fluid", vec![article]);
    let root = el(&mut d, "html", vec![container]);
    d.set_root(root);
    assert_eq!(scan_document(&d).unwrap_err(), GenError::MissingSectionHeading);
}

#[test]
fn end_to_end_minimal_document() {
    let d = minimal_doc();
    let sections = scan_document(&d).unwrap();
    assert_eq!(sections.len(), 1);
    let s = &sections[0];
    assert_eq!(s.identifier, "QuotesAndInfo");
    assert_eq!(s.functions.len(), 1);
    let f = &s.functions[0];
    assert_eq!(f.canonical_name, "current_price");
    assert_eq!(f.raw_endpoint_name, "Current Price");
    assert_eq!(f.description, "Returns the price.");
    let names: Vec<&str> = f.parameters.iter().map(|p| p.name.as_str()).collect();
    assert_eq!(names, ["symbol", "interval", "apikey", "function"]);
    assert!(matches!(f.parameters[0].necessity, ParameterNecessity::Required));
    assert!(matches!(f.parameters[1].necessity, ParameterNecessity::Optional(ref v) if v == "1min"));

    assert_eq!(
        url_template(f),
        "https://www.alphavantage.co/query?symbol={}&interval={}&apikey={}&function={}"
    );
    let args = substitution_args(f);
    assert_eq!(args, ["symbol", "interval", "self.apikey", "\"Current Price\""]);
    let inputs = operation_inputs(f);
    assert_eq!(inputs, ["symbol", "interval"]);
    assert_eq!(
        operation_signature(f),
        "fn current_price(&self, symbol: &str, interval: &str) -> Result<JsonObject, AlphavantageError>"
    );

    let iface = emit_interface(s);
    assert!(iface.starts_with("pub trait QuotesAndInfo {\n"));
    assert!(iface.contains("    /// Returns the price.\n"));
    assert!(iface.contains("fn current_price(&self, symbol: &str, interval: &str)"));

    let imp = emit_implementation(s);
    assert!(imp.starts_with("impl<'a, T: RequestClient> QuotesAndInfo for AlphavantageClient<'a, T> {\n"));
    assert!(imp.contains(
        "let url = format!(\"https://www.alphavantage.co/query?symbol={}&interval={}&apikey={}&function={}\", symbol, interval, self.apikey, \"Current Price\");"
    ));
    assert!(imp.contains("self.client.get(&url)"));

    let all = generate(&d).unwrap();
    assert!(all.contains("pub trait QuotesAndInfo"));
    assert!(all.contains("impl<'a, T: RequestClient> QuotesAndInfo for AlphavantageClient<'a, T>"));
}

#[test]
fn generation_is_deterministic() {
    let d = minimal_doc();
    let once = generate(&d).unwrap();
    let again = generate(&d).unwrap();
    assert_eq!(once, again);
}

#[test]
fn mock_client_returns_empty_object() {
    let c = MockClient;
    let r = c.get("https://www.alphavantage.co/query?function=X").unwrap();
    assert!(r.is_empty());
}

#[test]
fn client_stores_credential() {
    let c = AlphavantageClient::new("demo", MockClient);
    assert_eq!(c.apikey, "demo");
    let c2: AlphavantageClient<'static, MockClient> = AlphavantageClient::from_apikey("demo");
    assert_eq!(c2.apikey, "demo");
}

#[test]
fn template_placeholders_match_argument_count() {
    let d = minimal_doc();
    let sections = scan_document(&d).unwrap();
    let f = &sections[0].functions[0];
    let template = url_template(f);
    assert_eq!(template.matches("{}").count(), substitution_args(f).len());
}

#[test]
fn sections_and_functions_keep_document_order() {
    let mut d = Doc::new();
    let t1 = text(&mut d, "Alpha Things");
    let h2a = el(&mut d, "h2", vec![t1]);
    let f1t = text(&mut d, "First One");
    let f1 = el(&mut d, "h4", vec![f1t]);
    let f2t = text(&mut d, "Second One");
    let f2 = el(&mut d, "h4", vec![f2t]);
    let sec1 = el(&mut d, "section", vec![h2a, f1, f2]);
    let t2 = text(&mut d, "Beta (Old) & New");
    let h2b = el(&mut d, "h2", vec![t2]);
    let sec2 = el(&mut d, "section", vec![h2b]);
    let article = el(&mut d, "article", vec![sec1, sec2]);
    let container = el_attr(&mut d, "div", "class", "container-fluid", vec![article]);
    let root = el(&mut d, "html", vec![container]);
    d.set_root(root);

    let sections = scan_document(&d).unwrap();
    let idents: Vec<&str> = sections.iter().map(|s| s.identifier.as_str()).collect();
    assert_eq!(idents, ["AlphaThings", "BetaAndNew"]);
    let names: Vec<&str> = sections[0].functions.iter().map(|f| f.canonical_name.as_str()).collect();
    assert_eq!(names, ["first_one", "second_one"]);
    assert!(sections[1].functions.is_empty());
}
