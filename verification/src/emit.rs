use vstd::prelude::*;

use crate::doc::Doc;
use crate::extract::scan_document;
use crate::extract::spec_scan;
use crate::model::Function;
use crate::model::FunctionV;
use crate::model::GenError;
use crate::model::Parameter;
use crate::model::Section;
use crate::model::SectionV;
use crate::model::SpecNecessity;
use crate::model::params_view;
use crate::model::sections_view;
use crate::text::push_char;

verus! {

/// The fixed base address every operation's request URL starts from.
pub open spec fn spec_base_url() -> Seq<char> {
    "https://www.alphavantage.co/query?"@
}

/// The `&name={}` pieces of a URL template for the parameters from `k` on.
pub open spec fn spec_query_rest(params: Seq<(Seq<char>, SpecNecessity)>, k: int) -> Seq<char>
    decreases params.len() - k,
{
    if k >= params.len() || k < 0 {
        Seq::empty()
    } else {
        "&"@ + params[k].0 + "={}"@ + spec_query_rest(params, k + 1)
    }
}

/// The query part of a URL template: every parameter, the synthesized ones
/// included, contributes `name={}` in document order, joined with '&'.
pub open spec fn spec_query(params: Seq<(Seq<char>, SpecNecessity)>) -> Seq<char> {
    if params.len() == 0 {
        Seq::empty()
    } else {
        params[0].0 + "={}"@ + spec_query_rest(params, 1)
    }
}

/// The whole URL template of an operation.
pub open spec fn spec_url_template(params: Seq<(Seq<char>, SpecNecessity)>) -> Seq<char> {
    spec_base_url() + spec_query(params)
}

/// The code expression substituted for one parameter: the stored
/// credential field for "apikey", the quoted endpoint discriminator for
/// "function", and the caller-supplied input of the same name otherwise.
pub open spec fn spec_arg_of(f: FunctionV, p: (Seq<char>, SpecNecessity)) -> Seq<char> {
    if p.0 == "apikey"@ {
        "self.apikey"@
    } else if p.0 == "function"@ {
        seq!['"'] + f.raw_endpoint_name + seq!['"']
    } else {
        p.0
    }
}

/// The substitution expressions for the parameters from `k` on, in the
/// same order as the URL template's placeholders.
pub open spec fn spec_args_from(f: FunctionV, k: int) -> Seq<Seq<char>>
    decreases f.parameters.len() - k,
{
    if k >= f.parameters.len() || k < 0 {
        Seq::empty()
    } else {
        seq![spec_arg_of(f, f.parameters[k])] + spec_args_from(f, k + 1)
    }
}

/// The names of the caller-supplied inputs from `k` on: every parameter
/// except the two synthesized ones.
pub open spec fn spec_inputs_from(params: Seq<(Seq<char>, SpecNecessity)>, k: int) -> Seq<
    Seq<char>,
>
    decreases params.len() - k,
{
    if k >= params.len() || k < 0 {
        Seq::empty()
    } else {
        (if params[k].0 == "apikey"@ || params[k].0 == "function"@ {
            Seq::empty()
        } else {
            seq![params[k].0]
        }) + spec_inputs_from(params, k + 1)
    }
}

/// The parameter names from `k` on.
pub open spec fn spec_names_from(params: Seq<(Seq<char>, SpecNecessity)>, k: int) -> Seq<Seq<char>>
    decreases params.len() - k,
{
    if k >= params.len() || k < 0 {
        Seq::empty()
    } else {
        seq![params[k].0] + spec_names_from(params, k + 1)
    }
}

/// The `, name: &str` input declarations for the signature, from `k` on.
pub open spec fn spec_inputs_sig_from(params: Seq<(Seq<char>, SpecNecessity)>, k: int) -> Seq<char>
    decreases params.len() - k,
{
    if k >= params.len() || k < 0 {
        Seq::empty()
    } else {
        (if params[k].0 == "apikey"@ || params[k].0 == "function"@ {
            Seq::empty()
        } else {
            ", "@ + params[k].0 + ": &str"@
        }) + spec_inputs_sig_from(params, k + 1)
    }
}

/// One operation's signature: the receiver, one text input per
/// caller-supplied parameter, and the parsed-object-or-failure result.
pub open spec fn spec_signature(f: FunctionV) -> Seq<char> {
    "fn "@ + f.canonical_name + "(&self"@ + spec_inputs_sig_from(f.parameters, 0)
        + ") -> Result<JsonObject, AlphavantageError>"@
}

/// The substitution expressions joined with ", ", from `k` on.
pub open spec fn spec_args_joined(f: FunctionV, k: int) -> Seq<char>
    decreases f.parameters.len() - k,
{
    if k >= f.parameters.len() || k < 0 {
        Seq::empty()
    } else if k + 1 >= f.parameters.len() {
        spec_arg_of(f, f.parameters[k])
    } else {
        spec_arg_of(f, f.parameters[k]) + ", "@ + spec_args_joined(f, k + 1)
    }
}

/// One operation's declaration inside the interface: its description as
/// documentation, then its signature.
pub open spec fn spec_iface_items(fs: Seq<FunctionV>, k: int) -> Seq<char>
    decreases fs.len() - k,
{
    if k >= fs.len() || k < 0 {
        Seq::empty()
    } else {
        "    /// "@ + fs[k].description + "\n    "@ + spec_signature(fs[k]) + ";\n"@
            + spec_iface_items(fs, k + 1)
    }
}

/// The interface declaration of one capability group.
pub open spec fn spec_interface(s: SectionV) -> Seq<char> {
    "pub trait "@ + s.identifier + " {\n"@ + spec_iface_items(s.functions, 0) + "}\n"@
}

/// One operation's body: it builds the URL from the template and the
/// substitution expressions, in the same order, and delegates the request.
pub open spec fn spec_impl_item(f: FunctionV) -> Seq<char> {
    "    "@ + spec_signature(f) + " {\n        let url = format!(\""@ + spec_url_template(
        f.parameters,
    ) + "\""@ + (if f.parameters.len() == 0 {
        Seq::<char>::empty()
    } else {
        ", "@ + spec_args_joined(f, 0)
    }) + ");\n        self.client.get(&url)\n    }\n"@
}

pub open spec fn spec_impl_items(fs: Seq<FunctionV>, k: int) -> Seq<char>
    decreases fs.len() - k,
{
    if k >= fs.len() || k < 0 {
        Seq::empty()
    } else {
        spec_impl_item(fs[k]) + spec_impl_items(fs, k + 1)
    }
}

/// The concrete implementation of one capability group for the
/// client-bearing type.
pub open spec fn spec_implementation(s: SectionV) -> Seq<char> {
    "impl<'a, T: RequestClient> "@ + s.identifier + " for AlphavantageClient<'a, T> {\n"@
        + spec_impl_items(s.functions, 0) + "}\n"@
}

/// The whole emitted artifact: one interface and one implementation per
/// capability group, in document order.
pub open spec fn spec_emit(sections: Seq<SectionV>, k: int) -> Seq<char>
    decreases sections.len() - k,
{
    if k >= sections.len() || k < 0 {
        Seq::empty()
    } else {
        spec_interface(sections[k]) + "\n"@ + spec_implementation(sections[k]) + "\n"@ + spec_emit(
            sections,
            k + 1,
        )
    }
}

/// What a whole generation run produces: the scanned model rendered as
/// source text, or the first schema violation found.
pub open spec fn spec_generate(doc: Doc) -> Result<Seq<char>, GenError> {
    match spec_scan(doc) {
        Err(e) => Err(e),
        Ok(secs) => Ok(spec_emit(secs, 0)),
    }
}

/// A list of strings as mathematical character sequences.
pub open spec fn strings_view(v: Seq<String>) -> Seq<Seq<char>> {
    v.map_values(|s: String| s@)
}

/// Whether this name is one of the two synthesized parameters, whose
/// values the client supplies itself.
fn is_synthesized(name: &String) -> (r: bool)
    ensures
        r == (name@ == "apikey"@ || name@ == "function"@),
{
    let a = String::from_str("apikey");
    let f = String::from_str("function");
    String::eq(name, &a) || String::eq(name, &f)
}

/// Renders the URL template of an operation: the base address, then
/// `name={}` for every parameter in document order, joined with '&'.
pub fn url_template(f: &Function) -> (r: String)
    ensures
        r@ == spec_url_template(params_view(f.parameters@)),
{
    let ghost pv = params_view(f.parameters@);
    let mut out = String::from_str("https://www.alphavantage.co/query?");
    let n = f.parameters.len();
    if n == 0 {
        proof {
            assert(out@ =~= spec_url_template(pv));
        }
        return out;
    }
    proof {
        assert(pv[0] == f.parameters@[0]@);
    }
    out.append(f.parameters[0].name.as_str());
    out.append("={}");
    proof {
        assert(out@ + spec_query_rest(pv, 1) =~= spec_base_url() + (pv[0].0 + "={}"@
            + spec_query_rest(pv, 1)));
    }
    let mut i: usize = 1;
    while i < n
        invariant
            pv == params_view(f.parameters@),
            n == f.parameters@.len(),
            1 <= i <= n,
            spec_url_template(pv) == out@ + spec_query_rest(pv, i as int),
        decreases n - i,
    {
        proof {
            assert(pv[i as int] == f.parameters@[i as int]@);
        }
        let ghost out_old = out@;
        out.append("&");
        out.append(f.parameters[i].name.as_str());
        out.append("={}");
        proof {
            assert(out@ + spec_query_rest(pv, i + 1) =~= out_old + ("&"@ + pv[i as int].0 + "={}"@
                + spec_query_rest(pv, i + 1)));
        }
        i = i + 1;
    }
    proof {
        assert(out@ + spec_query_rest(pv, n as int) =~= out@);
    }
    out
}

/// Renders the substitution expression of the parameter at index `k`.
fn arg_of(f: &Function, k: usize) -> (r: String)
    requires
        k < f.parameters@.len(),
    ensures
        r@ == spec_arg_of(f@, f@.parameters[k as int]),
{
    proof {
        assert(f@.parameters[k as int] == f.parameters@[k as int]@);
    }
    let name = &f.parameters[k].name;
    let apikey = String::from_str("apikey");
    let function = String::from_str("function");
    if String::eq(name, &apikey) {
        String::from_str("self.apikey")
    } else if String::eq(name, &function) {
        let mut s = String::new();
        push_char(&mut s, '"');
        s.append(f.raw_endpoint_name.as_str());
        push_char(&mut s, '"');
        proof {
            assert(s@ =~= seq!['"'] + f@.raw_endpoint_name + seq!['"']);
        }
        s
    } else {
        name.clone()
    }
}

/// Collects the substitution expressions of all parameters, in template
/// order.
pub fn substitution_args(f: &Function) -> (r: Vec<String>)
    ensures
        strings_view(r@) == spec_args_from(f@, 0),
{
    args_from(f, 0)
}

fn args_from(f: &Function, k: usize) -> (r: Vec<String>)
    ensures
        strings_view(r@) == spec_args_from(f@, k as int),
    decreases f.parameters@.len() - k,
{
    if k >= f.parameters.len() {
        let out: Vec<String> = Vec::new();
        proof {
            assert(strings_view(out@) =~= Seq::<Seq<char>>::empty());
        }
        out
    } else {
        let a = arg_of(f, k);
        let rest = args_from(f, k + 1);
        let ghost a_view = a@;
        let ghost rest_old = rest@;
        let mut rest = rest;
        rest.insert(0, a);
        proof {
            assert(strings_view(rest@) =~= seq![a_view] + strings_view(rest_old));
        }
        rest
    }
}

/// Collects the names of the caller-supplied inputs: the parameter list
/// minus the two synthesized names.
pub fn operation_inputs(f: &Function) -> (r: Vec<String>)
    ensures
        strings_view(r@) == spec_inputs_from(params_view(f.parameters@), 0),
{
    inputs_from(&f.parameters, 0)
}

fn inputs_from(params: &Vec<Parameter>, k: usize) -> (r: Vec<String>)
    ensures
        strings_view(r@) == spec_inputs_from(params_view(params@), k as int),
    decreases params@.len() - k,
{
    if k >= params.len() {
        let out: Vec<String> = Vec::new();
        proof {
            assert(strings_view(out@) =~= Seq::<Seq<char>>::empty());
        }
        out
    } else {
        proof {
            assert(params_view(params@)[k as int] == params@[k as int]@);
        }
        let rest = inputs_from(params, k + 1);
        if is_synthesized(&params[k].name) {
            proof {
                assert(Seq::<Seq<char>>::empty() + strings_view(rest@) =~= strings_view(rest@));
            }
            rest
        } else {
            let ghost rest_old = rest@;
            let mut rest = rest;
            rest.insert(0, params[k].name.clone());
            proof {
                assert(strings_view(rest@) =~= seq![params@[k as int].name@] + strings_view(
                    rest_old,
                ));
            }
            rest
        }
    }
}

fn inputs_sig_from(params: &Vec<Parameter>, k: usize) -> (r: String)
    ensures
        r@ == spec_inputs_sig_from(params_view(params@), k as int),
    decreases params@.len() - k,
{
    if k >= params.len() {
        String::new()
    } else {
        proof {
            assert(params_view(params@)[k as int] == params@[k as int]@);
        }
        let rest = inputs_sig_from(params, k + 1);
        if is_synthesized(&params[k].name) {
            proof {
                assert(Seq::<char>::empty() + rest@ =~= rest@);
            }
            rest
        } else {
            let mut s = String::from_str(", ");
            s.append(params[k].name.as_str());
            s.append(": &str");
            s.append(rest.as_str());
            proof {
                assert(s@ =~= (", "@ + params@[k as int].name@ + ": &str"@) + rest@);
            }
            s
        }
    }
}

/// Renders one operation's signature.
pub fn operation_signature(f: &Function) -> (r: String)
    ensures
        r@ == spec_signature(f@),
{
    let mut s = String::from_str("fn ");
    s.append(f.canonical_name.as_str());
    s.append("(&self");
    s.append(inputs_sig_from(&f.parameters, 0).as_str());
    s.append(") -> Result<JsonObject, AlphavantageError>");
    s
}

fn args_joined(f: &Function, k: usize) -> (r: String)
    ensures
        r@ == spec_args_joined(f@, k as int),
    decreases f.parameters@.len() - k,
{
    if k >= f.parameters.len() {
        String::new()
    } else {
        let mut a = arg_of(f, k);
        if k + 1 >= f.parameters.len() {
            a
        } else {
            let rest = args_joined(f, k + 1);
            a.append(", ");
            a.append(rest.as_str());
            a
        }
    }
}

fn impl_item(f: &Function) -> (r: String)
    ensures
        r@ == spec_impl_item(f@),
{
    proof {
        assert(f@.parameters == params_view(f.parameters@));
    }
    let mut s = String::from_str("    ");
    s.append(operation_signature(f).as_str());
    s.append(" {\n        let url = format!(\"");
    s.append(url_template(f).as_str());
    s.append("\"");
    let ghost mid = s@;
    if f.parameters.len() > 0 {
        s.append(", ");
        s.append(args_joined(f, 0).as_str());
        proof {
            assert(s@ =~= mid + (", "@ + spec_args_joined(f@, 0)));
        }
    } else {
        proof {
            assert(s@ =~= mid + Seq::<char>::empty());
        }
    }
    s.append(");\n        self.client.get(&url)\n    }\n");
    s
}

fn iface_items(fs: &Vec<Function>, k: usize) -> (r: String)
    ensures
        r@ == spec_iface_items(fs@.map_values(|f: Function| f@), k as int),
    decreases fs@.len() - k,
{
    if k >= fs.len() {
        String::new()
    } else {
        proof {
            assert(fs@.map_values(|f: Function| f@)[k as int] == fs@[k as int]@);
        }
        let mut s = String::from_str("    /// ");
        s.append(fs[k].description.as_str());
        s.append("\n    ");
        s.append(operation_signature(&fs[k]).as_str());
        s.append(";\n");
        s.append(iface_items(fs, k + 1).as_str());
        s
    }
}

/// Renders the interface declaration of one capability group.
pub fn emit_interface(s: &Section) -> (r: String)
    ensures
        r@ == spec_interface(s@),
{
    let mut out = String::from_str("pub trait ");
    out.append(s.identifier.as_str());
    out.append(" {\n");
    out.append(iface_items(&s.functions, 0).as_str());
    out.append("}\n");
    out
}

fn impl_items(fs: &Vec<Function>, k: usize) -> (r: String)
    ensures
        r@ == spec_impl_items(fs@.map_values(|f: Function| f@), k as int),
    decreases fs@.len() - k,
{
    if k >= fs.len() {
        String::new()
    } else {
        proof {
            assert(fs@.map_values(|f: Function| f@)[k as int] == fs@[k as int]@);
        }
        let mut s = impl_item(&fs[k]);
        s.append(impl_items(fs, k + 1).as_str());
        s
    }
}

/// Renders the concrete implementation of one capability group.
pub fn emit_implementation(s: &Section) -> (r: String)
    ensures
        r@ == spec_implementation(s@),
{
    let mut out = String::from_str("impl<'a, T: RequestClient> ");
    out.append(s.identifier.as_str());
    out.append(" for AlphavantageClient<'a, T> {\n");
    out.append(impl_items(&s.functions, 0).as_str());
    out.append("}\n");
    out
}

fn emit_all(secs: &Vec<Section>, k: usize) -> (r: String)
    ensures
        r@ == spec_emit(sections_view(secs@), k as int),
    decreases secs@.len() - k,
{
    if k >= secs.len() {
        String::new()
    } else {
        proof {
            assert(sections_view(secs@)[k as int] == secs@[k as int]@);
        }
        let mut s = emit_interface(&secs[k]);
        s.append("\n");
        s.append(emit_implementation(&secs[k]).as_str());
        s.append("\n");
        s.append(emit_all(secs, k + 1).as_str());
        s
    }
}

/// The number of `{}` placeholders in a piece of text, counted left to
/// right without overlap.
pub open spec fn placeholder_count(s: Seq<char>) -> int
    decreases s.len(),
{
    if s.len() < 2 {
        0
    } else if s[0] == '{' && s[1] == '}' {
        1 + placeholder_count(s.skip(2))
    } else {
        placeholder_count(s.skip(1))
    }
}

/// The text contains no brace at all.
pub open spec fn brace_free(s: Seq<char>) -> bool {
    forall|k: int| 0 <= k < s.len() ==> s[k] != '{' && s[k] != '}'
}

proof fn lemma_count_prefix_free(a: Seq<char>, b: Seq<char>)
    requires
        forall|k: int| 0 <= k < a.len() ==> a[k] != '{',
    ensures
        placeholder_count(a + b) == placeholder_count(b),
    decreases a.len(),
{
    if a.len() == 0 {
        assert(a + b =~= b);
    } else {
        let s = a + b;
        if s.len() < 2 {
            assert(b.len() < 2);
        } else {
            assert(s[0] == a[0]);
            assert(s.skip(1) =~= a.skip(1) + b);
            assert forall|k: int| 0 <= k < a.skip(1).len() implies a.skip(1)[k] != '{' by {
                assert(a.skip(1)[k] == a[k + 1]);
            }
            lemma_count_prefix_free(a.skip(1), b);
        }
    }
}

proof fn lemma_count_placeholder_piece(b: Seq<char>)
    ensures
        placeholder_count("={}"@ + b) == 1 + placeholder_count(b),
{
    reveal_strlit("={}");
    let s = "={}"@ + b;
    assert(s[0] == '=' && s[1] == '{' && s[2] == '}');
    assert(s.skip(1)[0] == '{' && s.skip(1)[1] == '}');
    assert(placeholder_count(s) == placeholder_count(s.skip(1)));
    assert(placeholder_count(s.skip(1)) == 1 + placeholder_count(s.skip(1).skip(2)));
    assert(s.skip(1).skip(2) =~= b);
}

proof fn lemma_query_rest_count(params: Seq<(Seq<char>, SpecNecessity)>, k: int)
    requires
        0 <= k <= params.len(),
        forall|j: int| 0 <= j < params.len() ==> brace_free((#[trigger] params[j]).0),
    ensures
        placeholder_count(spec_query_rest(params, k)) == params.len() - k,
    decreases params.len() - k,
{
    if k >= params.len() {
    } else {
        lemma_query_rest_count(params, k + 1);
        let tail = spec_query_rest(params, k + 1);
        let a = "&"@ + params[k].0;
        reveal_strlit("&");
        assert forall|j: int| 0 <= j < a.len() implies a[j] != '{' by {
            if j >= 1 {
                assert(a[j] == params[k].0[j - 1]);
            }
        }
        assert(spec_query_rest(params, k) =~= a + ("={}"@ + tail));
        lemma_count_prefix_free(a, "={}"@ + tail);
        lemma_count_placeholder_piece(tail);
    }
}

proof fn lemma_template_count(params: Seq<(Seq<char>, SpecNecessity)>)
    requires
        forall|j: int| 0 <= j < params.len() ==> brace_free((#[trigger] params[j]).0),
    ensures
        placeholder_count(spec_url_template(params)) == params.len(),
{
    reveal_strlit("https://www.alphavantage.co/query?");
    let base = spec_base_url();
    assert(forall|k: int| 0 <= k < base.len() ==> base[k] != '{');
    if params.len() == 0 {
        assert(spec_url_template(params) =~= base + Seq::<char>::empty());
        lemma_count_prefix_free(base, Seq::<char>::empty());
    } else {
        let tail = spec_query_rest(params, 1);
        let a = base + params[0].0;
        assert forall|j: int| 0 <= j < a.len() implies a[j] != '{' by {
            if j >= base.len() {
                assert(a[j] == params[0].0[j - base.len()]);
            }
        }
        assert(spec_url_template(params) =~= a + ("={}"@ + tail));
        lemma_count_prefix_free(a, "={}"@ + tail);
        lemma_count_placeholder_piece(tail);
        lemma_query_rest_count(params, 1);
    }
}

proof fn lemma_args_len(f: FunctionV, k: int)
    requires
        0 <= k <= f.parameters.len(),
    ensures
        spec_args_from(f, k).len() == f.parameters.len() - k,
    decreases f.parameters.len() - k,
{
    if k < f.parameters.len() {
        lemma_args_len(f, k + 1);
    }
}

/// The emitted substitution order matches the URL template exactly: the
/// template holds one placeholder per parameter, in document order, and
/// the substitution list supplies one expression per parameter, in that
/// same order, so the two counts agree for every operation whose
/// parameter names hold no brace.
pub proof fn lemma_substitution_alignment(f: FunctionV)
    requires
        forall|j: int| 0 <= j < f.parameters.len() ==> brace_free((#[trigger] f.parameters[j]).0),
    ensures
        placeholder_count(spec_url_template(f.parameters)) == spec_args_from(f, 0).len(),
{
    lemma_template_count(f.parameters);
    lemma_args_len(f, 0);
}

proof fn lemma_cons_contains(h: Seq<char>, rest: Seq<Seq<char>>, x: Seq<char>)
    ensures
        (seq![h] + rest).contains(x) <==> (x == h || rest.contains(x)),
{
    let s = seq![h] + rest;
    if s.contains(x) {
        let i = choose|i: int| 0 <= i < s.len() && s[i] == x;
        if i >= 1 {
            assert(rest[i - 1] == x);
            assert(rest.contains(x));
        }
    }
    if x == h {
        assert(s[0] == x);
        assert(s.contains(x));
    }
    if rest.contains(x) {
        let i = choose|i: int| 0 <= i < rest.len() && rest[i] == x;
        assert(s[i + 1] == x);
        assert(s.contains(x));
    }
}

proof fn lemma_inputs_membership(params: Seq<(Seq<char>, SpecNecessity)>, k: int, x: Seq<char>)
    requires
        0 <= k,
        forall|j: int| 0 <= j < params.len() ==> (#[trigger] params[j]).0 != "datatype"@,
    ensures
        spec_inputs_from(params, k).contains(x) <==> (spec_names_from(params, k).contains(x) && x
            != "apikey"@ && x != "function"@ && x != "datatype"@),
    decreases params.len() - k,
{
    if k >= params.len() {
    } else {
        lemma_inputs_membership(params, k + 1, x);
        let name = params[k].0;
        lemma_cons_contains(name, spec_names_from(params, k + 1), x);
        if name == "apikey"@ || name == "function"@ {
            assert(spec_inputs_from(params, k) =~= Seq::<Seq<char>>::empty() + spec_inputs_from(
                params,
                k + 1,
            ));
            assert(spec_inputs_from(params, k) =~= spec_inputs_from(params, k + 1));
        } else {
            lemma_cons_contains(name, spec_inputs_from(params, k + 1), x);
        }
    }
}

/// The set of caller-supplied inputs of an emitted operation is exactly
/// the Function's parameter set minus {apikey, function, datatype}: the
/// two synthesized names are filtered at emission, and "datatype" was
/// already dropped at extraction, so it never occurs among the names.
pub proof fn lemma_public_inputs(params: Seq<(Seq<char>, SpecNecessity)>, x: Seq<char>)
    requires
        forall|j: int| 0 <= j < params.len() ==> (#[trigger] params[j]).0 != "datatype"@,
    ensures
        spec_inputs_from(params, 0).contains(x) <==> (spec_names_from(params, 0).contains(x) && x
            != "apikey"@ && x != "function"@ && x != "datatype"@),
{
    lemma_inputs_membership(params, 0, x);
}

/// Runs one whole generation: scans the document and renders every
/// capability group, or reports the first schema violation. The same
/// document always yields byte-for-byte the same text.
pub fn generate(doc: &Doc) -> (r: Result<String, GenError>)
    requires
        doc.wf(),
    ensures
        r matches Ok(s) ==> spec_generate(*doc) == Ok::<Seq<char>, GenError>(s@),
        r matches Err(e) ==> spec_generate(*doc) == Err::<Seq<char>, GenError>(e),
{
    match scan_document(doc) {
        Err(e) => Err(e),
        Ok(secs) => Ok(emit_all(&secs, 0)),
    }
}

} // verus!
