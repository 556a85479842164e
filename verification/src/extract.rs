use vstd::prelude::*;

use crate::doc::Doc;
use crate::doc::NodeData;
use crate::doc::Pred;
use crate::doc::PredV;
use crate::doc::sites_view;
use crate::model::Function;
use crate::model::FunctionV;
use crate::model::GenError;
use crate::model::Parameter;
use crate::model::ParameterNecessity;
use crate::model::Section;
use crate::model::SectionV;
use crate::model::SpecNecessity;
use crate::model::function_result_view;
use crate::model::functions_result_view;
use crate::model::functions_view;
use crate::model::param_result_view;
use crate::model::params_result_view;
use crate::model::params_view;
use crate::model::section_result_view;
use crate::model::sections_result_view;
use crate::model::sections_view;
use crate::names::contains_sub;
use crate::names::contains_str;
use crate::names::spec_canonical_name;
use crate::names::spec_default_of;
use crate::names::spec_raw_endpoint_name;
use crate::names::canonical_name;
use crate::names::default_segment;
use crate::names::raw_endpoint_name;
use crate::ident::spec_identifier;
use crate::ident::derive_identifier;

verus! {

/// A list of node ids as mathematical integers.
pub open spec fn ids_view(v: Seq<usize>) -> Seq<int> {
    v.map_values(|x: usize| x as int)
}

/// A node takes part in the description and parameter traversals only if
/// it is an element and not a line-break marker; raw text between elements
/// is skipped.
pub open spec fn visible(doc: Doc, i: int) -> bool {
    doc.is_element(i) && doc.tag_of(i) != "br"@
}

/// The ids of the visible children of `parent` from child position `pos`
/// on, in document order: the nodes a forward sibling traversal visits.
pub open spec fn visible_from(doc: Doc, parent: int, pos: int) -> Seq<int>
    decreases doc.nodes[parent].kids.len() - pos,
    when 0 <= pos
{
    if pos >= doc.nodes[parent].kids.len() {
        Seq::empty()
    } else {
        let kid = doc.nodes[parent].kids[pos] as int;
        (if visible(doc, kid) {
            seq![kid]
        } else {
            Seq::empty()
        }) + visible_from(doc, parent, pos + 1)
    }
}

/// Index of the first node in `v` at or after `k` that is an element with
/// the given tag, or `v.len()` if there is none.
pub open spec fn first_tag_at(doc: Doc, v: Seq<int>, k: int, tag: Seq<char>) -> int
    decreases v.len() - k,
{
    if k >= v.len() {
        v.len() as int
    } else if 0 <= k && doc.is_element(v[k]) && doc.tag_of(v[k]) == tag {
        k
    } else {
        first_tag_at(doc, v, k + 1, tag)
    }
}

proof fn lemma_first_tag_at_bounds(doc: Doc, v: Seq<int>, k: int, tag: Seq<char>)
    requires
        0 <= k,
    ensures
        first_tag_at(doc, v, k, tag) <= v.len(),
        k <= v.len() ==> k <= first_tag_at(doc, v, k, tag),
    decreases v.len() - k,
{
    if k >= v.len() {
    } else if doc.is_element(v[k]) && doc.tag_of(v[k]) == tag {
    } else {
        lemma_first_tag_at_bounds(doc, v, k + 1, tag);
    }
}

/// The texts of the nodes `v[k..b]`, space-joined.
pub open spec fn texts_joined(doc: Doc, v: Seq<int>, k: int, b: int) -> Seq<char>
    decreases b - k,
{
    if k >= b {
        Seq::empty()
    } else if k + 1 >= b {
        doc.text_of(v[k])
    } else {
        doc.text_of(v[k]) + " "@ + texts_joined(doc, v, k + 1, b)
    }
}

/// What one (definition, elaboration) node pair yields: a parameter, or
/// nothing for the single dropped name, or the schema violation found.
/// The definition node must hold an inline code token (the name) and the
/// word "Required" or "Optional"; an optional parameter's default comes
/// from the elaboration node's code token, split at '='. The "datatype"
/// parameter is dropped only after this classification.
pub open spec fn spec_param_of(doc: Doc, def: int, elab: int) -> Result<
    Option<(Seq<char>, SpecNecessity)>,
    GenError,
> {
    let codes = doc.search_from(def, 0, PredV::Tag("code"@));
    if codes.len() == 0 {
        Err(GenError::MissingParameterName)
    } else {
        let name = doc.text_of(doc.site_id(codes[0]));
        let dtext = doc.text_of(def);
        if contains_sub(dtext, "Required"@) {
            if name == "datatype"@ {
                Ok(None)
            } else {
                Ok(Some((name, SpecNecessity::Required)))
            }
        } else if contains_sub(dtext, "Optional"@) {
            let ecodes = doc.search_from(elab, 0, PredV::Tag("code"@));
            if ecodes.len() == 0 {
                Err(GenError::MissingDefault)
            } else {
                match spec_default_of(doc.text_of(doc.site_id(ecodes[0]))) {
                    None => Err(GenError::MissingDefault),
                    Some(d) => if name == "datatype"@ {
                        Ok(None)
                    } else {
                        Ok(Some((name, SpecNecessity::Optional(d))))
                    },
                }
            }
        } else {
            Err(GenError::UnknownNecessity)
        }
    }
}

/// What the visible nodes `v[k..b]` yield when consumed two at a time as
/// (definition, elaboration) pairs; a definition left without a partner is
/// the fatal pairing violation.
pub open spec fn spec_params_from(doc: Doc, v: Seq<int>, k: int, b: int) -> Result<
    Seq<(Seq<char>, SpecNecessity)>,
    GenError,
>
    decreases b - k,
{
    if k >= b {
        Ok(Seq::empty())
    } else if k + 1 >= b {
        Err(GenError::UnpairedDefinition)
    } else {
        match spec_param_of(doc, v[k], v[k + 1]) {
            Err(e) => Err(e),
            Ok(o) => match spec_params_from(doc, v, k + 2, b) {
                Err(e) => Err(e),
                Ok(rest) => match o {
                    None => Ok(rest),
                    Some(p) => Ok(seq![p] + rest),
                },
            },
        }
    }
}

/// What the heading at child position `pos` of `parent` yields: names from
/// the heading's first child text, the description from the visible
/// siblings before the first level-6 marker, and the parameters from the
/// pairs between that marker and the next.
pub open spec fn spec_function_of(doc: Doc, parent: int, pos: int) -> Result<FunctionV, GenError> {
    let h4 = doc.nodes[parent].kids[pos] as int;
    if doc.nodes[h4].kids.len() == 0 {
        Err(GenError::MissingFunctionHeading)
    } else {
        let heading = doc.text_of(doc.nodes[h4].kids[0] as int);
        let v = visible_from(doc, parent, pos + 1);
        let a = first_tag_at(doc, v, 0, "h6"@);
        let params = if a >= v.len() {
            Ok(Seq::empty())
        } else {
            spec_params_from(doc, v, a + 1, first_tag_at(doc, v, a + 1, "h6"@))
        };
        match params {
            Err(e) => Err(e),
            Ok(ps) => Ok(
                FunctionV {
                    canonical_name: spec_canonical_name(heading),
                    raw_endpoint_name: spec_raw_endpoint_name(heading),
                    description: texts_joined(doc, v, 0, a),
                    parameters: ps,
                },
            ),
        }
    }
}

/// What the level-4 headings at the given sites yield, in document order.
pub open spec fn spec_functions_from(doc: Doc, sites: Seq<(int, int)>, k: int) -> Result<
    Seq<FunctionV>,
    GenError,
>
    decreases sites.len() - k,
{
    if k >= sites.len() || k < 0 {
        Ok(Seq::empty())
    } else {
        match spec_function_of(doc, sites[k].0, sites[k].1) {
            Err(e) => Err(e),
            Ok(f) => match spec_functions_from(doc, sites, k + 1) {
                Err(e) => Err(e),
                Ok(rest) => Ok(seq![f] + rest),
            },
        }
    }
}

/// What one section element yields: its identifier from the first level-2
/// heading's text, and one Function per level-4 heading.
pub open spec fn spec_section_of(doc: Doc, sec: int) -> Result<SectionV, GenError> {
    let h2s = doc.search_from(sec, 0, PredV::Tag("h2"@));
    if h2s.len() == 0 {
        Err(GenError::MissingSectionHeading)
    } else {
        let title = doc.text_of(doc.site_id(h2s[0]));
        match spec_functions_from(doc, doc.search_from(sec, 0, PredV::Tag("h4"@)), 0) {
            Err(e) => Err(e),
            Ok(fs) => Ok(SectionV { identifier: spec_identifier(title), functions: fs }),
        }
    }
}

/// What the section elements at the given sites yield, in document order.
pub open spec fn spec_sections_from(doc: Doc, sites: Seq<(int, int)>, k: int) -> Result<
    Seq<SectionV>,
    GenError,
>
    decreases sites.len() - k,
{
    if k >= sites.len() || k < 0 {
        Ok(Seq::empty())
    } else {
        match spec_section_of(doc, doc.site_id(sites[k])) {
            Err(e) => Err(e),
            Ok(s) => match spec_sections_from(doc, sites, k + 1) {
                Err(e) => Err(e),
                Ok(rest) => Ok(seq![s] + rest),
            },
        }
    }
}

/// What a whole document yields: the main content region is the first
/// article element inside the first element carrying the layout class,
/// and every section element inside that article becomes one capability
/// group.
pub open spec fn spec_scan(doc: Doc) -> Result<Seq<SectionV>, GenError> {
    if doc.nodes.len() == 0 {
        Err(GenError::MissingMainContent)
    } else {
        let cfs = doc.search_from(doc.root as int, 0, PredV::Attr("class"@, "container-fluid"@));
        if cfs.len() == 0 {
            Err(GenError::MissingMainContent)
        } else {
            let arts = doc.search_from(doc.site_id(cfs[0]), 0, PredV::Tag("article"@));
            if arts.len() == 0 {
                Err(GenError::MissingMainContent)
            } else {
                spec_sections_from(
                    doc,
                    doc.search_from(doc.site_id(arts[0]), 0, PredV::Tag("section"@)),
                    0,
                )
            }
        }
    }
}

/// Collects the ids of the visible children of `parent` from position
/// `from` on: the nodes the forward sibling traversal will visit.
pub fn visible_siblings(doc: &Doc, parent: usize, from: usize) -> (r: Vec<usize>)
    requires
        doc.wf(),
        parent < doc.nodes@.len(),
        from <= doc.nodes@[parent as int].kids@.len(),
    ensures
        ids_view(r@) == visible_from(*doc, parent as int, from as int),
        forall|j: int| 0 <= j < r@.len() ==> (#[trigger] r@[j]) < doc.nodes@.len(),
{
    let n = doc.nodes[parent].kids.len();
    let mut out: Vec<usize> = Vec::new();
    let mut pos = from;
    while pos < n
        invariant
            doc.wf(),
            parent < doc.nodes@.len(),
            n == doc.nodes@[parent as int].kids@.len(),
            from <= pos <= n,
            visible_from(*doc, parent as int, from as int) == ids_view(out@) + visible_from(
                *doc,
                parent as int,
                pos as int,
            ),
            forall|j: int| 0 <= j < out@.len() ==> (#[trigger] out@[j]) < doc.nodes@.len(),
        decreases n - pos,
    {
        let kid = doc.nodes[parent].kids[pos];
        proof {
            assert(doc.node_wf(parent as int));
        }
        let ghost out_old = out@;
        let is_vis = match &doc.nodes[kid].data {
            NodeData::Element { tag, .. } => !String::eq(tag, &String::from_str("br")),
            NodeData::Text { .. } => false,
        };
        if is_vis {
            out.push(kid);
        }
        proof {
            let m = if visible(*doc, kid as int) {
                seq![kid as int]
            } else {
                Seq::<int>::empty()
            };
            assert(ids_view(out@) =~= ids_view(out_old) + m);
            assert(ids_view(out_old) + (m + visible_from(*doc, parent as int, pos + 1))
                =~= (ids_view(out_old) + m) + visible_from(*doc, parent as int, pos + 1));
        }
        pos = pos + 1;
    }
    proof {
        assert(ids_view(out@) + visible_from(*doc, parent as int, n as int) =~= ids_view(out@));
    }
    out
}

/// Finds the first node in `v` at or after `k` that is an element with the
/// given tag, or the length if there is none.
fn first_tag_index(doc: &Doc, v: &Vec<usize>, k: usize, tag: &str) -> (r: usize)
    requires
        doc.wf(),
        k <= v@.len(),
        forall|j: int| 0 <= j < v@.len() ==> (#[trigger] v@[j]) < doc.nodes@.len(),
    ensures
        r == first_tag_at(*doc, ids_view(v@), k as int, tag@),
{
    let n = v.len();
    let t = tag.to_owned();
    let mut j = k;
    while j < n
        invariant
            doc.wf(),
            k <= j <= n,
            n == v@.len(),
            t@ == tag@,
            forall|jj: int| 0 <= jj < v@.len() ==> (#[trigger] v@[jj]) < doc.nodes@.len(),
            first_tag_at(*doc, ids_view(v@), k as int, tag@) == first_tag_at(
                *doc,
                ids_view(v@),
                j as int,
                tag@,
            ),
        decreases n - j,
    {
        let id = v[j];
        let hit = match &doc.nodes[id].data {
            NodeData::Element { tag: nt, .. } => String::eq(nt, &t),
            NodeData::Text { .. } => false,
        };
        if hit {
            proof {
                assert(ids_view(v@)[j as int] == id as int);
            }
            return j;
        }
        proof {
            assert(ids_view(v@)[j as int] == id as int);
        }
        j = j + 1;
    }
    j
}

/// Space-joins the texts of the nodes `v[k..b]`.
fn join_texts(doc: &Doc, v: &Vec<usize>, k: usize, b: usize) -> (r: String)
    requires
        doc.wf(),
        b <= v@.len(),
        forall|j: int| 0 <= j < v@.len() ==> (#[trigger] v@[j]) < doc.nodes@.len(),
    ensures
        r@ == texts_joined(*doc, ids_view(v@), k as int, b as int),
    decreases b - k,
{
    if k >= b {
        String::new()
    } else {
        let t = doc.text_content(v[k]);
        proof {
            assert(ids_view(v@)[k as int] == v@[k as int] as int);
        }
        if k + 1 >= b {
            t
        } else {
            let mut out = t;
            out.append(" ");
            let rest = join_texts(doc, v, k + 1, b);
            out.append(rest.as_str());
            out
        }
    }
}

/// Extracts one Parameter from a (definition, elaboration) node pair, per
/// `spec_param_of`; `Ok(None)` is the dropped "datatype" parameter.
pub fn extract_parameter(doc: &Doc, def: usize, elab: usize) -> (r: Result<
    Option<Parameter>,
    GenError,
>)
    requires
        doc.wf(),
        def < doc.nodes@.len(),
        elab < doc.nodes@.len(),
    ensures
        param_result_view(r) == spec_param_of(*doc, def as int, elab as int),
{
    let code_pred = Pred::Tag(String::from_str("code"));
    let codes = doc.search(def, &code_pred);
    if codes.len() == 0 {
        proof {
            assert(doc.search_from(def as int, 0, PredV::Tag("code"@)).len() == 0);
        }
        return Err(GenError::MissingParameterName);
    }
    let site = codes[0];
    proof {
        assert(sites_view(codes@)[0] == (site.0 as int, site.1 as int));
        assert(doc.node_wf(site.0 as int));
    }
    let code_id = doc.nodes[site.0].kids[site.1];
    let name = doc.text_content(code_id);
    let dtext = doc.text_content(def);
    let datatype = String::from_str("datatype");
    if contains_str(dtext.as_str(), "Required") {
        if name == datatype {
            Ok(None)
        } else {
            Ok(Some(Parameter { name, necessity: ParameterNecessity::Required }))
        }
    } else if contains_str(dtext.as_str(), "Optional") {
        let ecodes = doc.search(elab, &code_pred);
        if ecodes.len() == 0 {
            proof {
                assert(doc.search_from(elab as int, 0, PredV::Tag("code"@)).len() == 0);
            }
            return Err(GenError::MissingDefault);
        }
        let esite = ecodes[0];
        proof {
            assert(sites_view(ecodes@)[0] == (esite.0 as int, esite.1 as int));
            assert(doc.node_wf(esite.0 as int));
        }
        let ecode_id = doc.nodes[esite.0].kids[esite.1];
        let ctext = doc.text_content(ecode_id);
        match default_segment(ctext.as_str()) {
            None => Err(GenError::MissingDefault),
            Some(d) => {
                if name == datatype {
                    Ok(None)
                } else {
                    Ok(Some(Parameter { name, necessity: ParameterNecessity::Optional(d) }))
                }
            },
        }
    } else {
        Err(GenError::UnknownNecessity)
    }
}

/// Consumes the visible nodes `v[k..b]` two at a time as (definition,
/// elaboration) pairs, per `spec_params_from`.
pub fn extract_parameters(doc: &Doc, v: &Vec<usize>, k: usize, b: usize) -> (r: Result<
    Vec<Parameter>,
    GenError,
>)
    requires
        doc.wf(),
        b <= v@.len(),
        forall|j: int| 0 <= j < v@.len() ==> (#[trigger] v@[j]) < doc.nodes@.len(),
    ensures
        params_result_view(r) == spec_params_from(*doc, ids_view(v@), k as int, b as int),
    decreases b - k,
{
    if k >= b {
        let out: Vec<Parameter> = Vec::new();
        proof {
            assert(params_view(out@) =~= Seq::<(Seq<char>, SpecNecessity)>::empty());
        }
        Ok(out)
    } else if k + 1 >= b {
        Err(GenError::UnpairedDefinition)
    } else {
        proof {
            assert(ids_view(v@)[k as int] == v@[k as int] as int);
            assert(ids_view(v@)[k + 1] == v@[k + 1] as int);
        }
        match extract_parameter(doc, v[k], v[k + 1]) {
            Err(e) => Err(e),
            Ok(o) => match extract_parameters(doc, v, k + 2, b) {
                Err(e) => Err(e),
                Ok(rest) => match o {
                    None => Ok(rest),
                    Some(p) => {
                        let ghost rest_old = rest@;
                        let mut rest = rest;
                        rest.insert(0, p);
                        proof {
                            assert(params_view(rest@) =~= seq![p@] + params_view(rest_old));
                        }
                        Ok(rest)
                    },
                },
            },
        }
    }
}

/// Extracts one Function from the level-4 heading at child position `pos`
/// of `parent`, per `spec_function_of`.
pub fn extract_function(doc: &Doc, parent: usize, pos: usize) -> (r: Result<Function, GenError>)
    requires
        doc.wf(),
        parent < doc.nodes@.len(),
        pos < doc.nodes@[parent as int].kids@.len(),
    ensures
        function_result_view(r) == spec_function_of(*doc, parent as int, pos as int),
{
    proof {
        assert(doc.node_wf(parent as int));
    }
    let h4 = doc.nodes[parent].kids[pos];
    if doc.nodes[h4].kids.len() == 0 {
        return Err(GenError::MissingFunctionHeading);
    }
    proof {
        assert(doc.node_wf(h4 as int));
    }
    let first_kid = doc.nodes[h4].kids[0];
    let heading = doc.text_content(first_kid);
    let v = visible_siblings(doc, parent, pos + 1);
    let a = first_tag_index(doc, &v, 0, "h6");
    proof {
        lemma_first_tag_at_bounds(*doc, ids_view(v@), 0, "h6"@);
    }
    let params = if a >= v.len() {
        let out: Vec<Parameter> = Vec::new();
        proof {
            assert(params_view(out@) =~= Seq::<(Seq<char>, SpecNecessity)>::empty());
        }
        Ok(out)
    } else {
        let b2 = first_tag_index(doc, &v, a + 1, "h6");
        proof {
            lemma_first_tag_at_bounds(*doc, ids_view(v@), a + 1, "h6"@);
        }
        extract_parameters(doc, &v, a + 1, b2)
    };
    match params {
        Err(e) => Err(e),
        Ok(ps) => {
            let description = join_texts(doc, &v, 0, a);
            Ok(
                Function {
                    canonical_name: canonical_name(heading.as_str()),
                    raw_endpoint_name: raw_endpoint_name(heading.as_str()),
                    description,
                    parameters: ps,
                },
            )
        },
    }
}

/// Extracts the Functions of all level-4 headings at the given sites,
/// from index `k` on.
pub fn extract_functions(doc: &Doc, sites: &Vec<(usize, usize)>, k: usize) -> (r: Result<
    Vec<Function>,
    GenError,
>)
    requires
        doc.wf(),
        forall|j: int|
            0 <= j < sites@.len() ==> (#[trigger] sites@[j]).0 < doc.nodes@.len() && sites@[j].1
                < doc.nodes@[sites@[j].0 as int].kids@.len(),
    ensures
        functions_result_view(r) == spec_functions_from(*doc, sites_view(sites@), k as int),
    decreases sites@.len() - k,
{
    if k >= sites.len() {
        let out: Vec<Function> = Vec::new();
        proof {
            assert(functions_view(out@) =~= Seq::<FunctionV>::empty());
        }
        Ok(out)
    } else {
        let site = sites[k];
        proof {
            assert(sites_view(sites@)[k as int] == (site.0 as int, site.1 as int));
        }
        match extract_function(doc, site.0, site.1) {
            Err(e) => Err(e),
            Ok(f) => match extract_functions(doc, sites, k + 1) {
                Err(e) => Err(e),
                Ok(rest) => {
                    let ghost rest_old = rest@;
                    let mut rest = rest;
                    rest.insert(0, f);
                    proof {
                        assert(functions_view(rest@) =~= seq![f@] + functions_view(rest_old));
                    }
                    Ok(rest)
                },
            },
        }
    }
}

/// Extracts one Section from a section element: its identifier from the
/// first level-2 heading, and its Functions from the level-4 headings, in
/// document order.
pub fn extract_section(doc: &Doc, sec: usize) -> (r: Result<Section, GenError>)
    requires
        doc.wf(),
        sec < doc.nodes@.len(),
    ensures
        section_result_view(r) == spec_section_of(*doc, sec as int),
{
    let h2_pred = Pred::Tag(String::from_str("h2"));
    let h2s = doc.search(sec, &h2_pred);
    if h2s.len() == 0 {
        proof {
            assert(doc.search_from(sec as int, 0, PredV::Tag("h2"@)).len() == 0);
        }
        return Err(GenError::MissingSectionHeading);
    }
    let site = h2s[0];
    proof {
        assert(sites_view(h2s@)[0] == (site.0 as int, site.1 as int));
        assert(doc.node_wf(site.0 as int));
    }
    let h2_id = doc.nodes[site.0].kids[site.1];
    let title = doc.text_content(h2_id);
    let h4_pred = Pred::Tag(String::from_str("h4"));
    let h4s = doc.search(sec, &h4_pred);
    match extract_functions(doc, &h4s, 0) {
        Err(e) => Err(e),
        Ok(fs) => Ok(Section { identifier: derive_identifier(title.as_str()), functions: fs }),
    }
}

/// Extracts the Sections of all section elements at the given sites, from
/// index `k` on.
fn extract_sections(doc: &Doc, sites: &Vec<(usize, usize)>, k: usize) -> (r: Result<
    Vec<Section>,
    GenError,
>)
    requires
        doc.wf(),
        forall|j: int|
            0 <= j < sites@.len() ==> (#[trigger] sites@[j]).0 < doc.nodes@.len() && sites@[j].1
                < doc.nodes@[sites@[j].0 as int].kids@.len(),
    ensures
        sections_result_view(r) == spec_sections_from(*doc, sites_view(sites@), k as int),
    decreases sites@.len() - k,
{
    if k >= sites.len() {
        let out: Vec<Section> = Vec::new();
        proof {
            assert(sections_view(out@) =~= Seq::<SectionV>::empty());
        }
        Ok(out)
    } else {
        let site = sites[k];
        proof {
            assert(sites_view(sites@)[k as int] == (site.0 as int, site.1 as int));
            assert(doc.node_wf(site.0 as int));
        }
        let sec_id = doc.nodes[site.0].kids[site.1];
        match extract_section(doc, sec_id) {
            Err(e) => Err(e),
            Ok(s) => match extract_sections(doc, sites, k + 1) {
                Err(e) => Err(e),
                Ok(rest) => {
                    let ghost rest_old = rest@;
                    let mut rest = rest;
                    rest.insert(0, s);
                    proof {
                        assert(sections_view(rest@) =~= seq![s@] + sections_view(rest_old));
                    }
                    Ok(rest)
                },
            },
        }
    }
}

/// Scans a whole document into its ordered capability groups, per
/// `spec_scan`: locating the main content region fails the run when the
/// layout container or the article inside it is absent.
pub fn scan_document(doc: &Doc) -> (r: Result<Vec<Section>, GenError>)
    requires
        doc.wf(),
    ensures
        sections_result_view(r) == spec_scan(*doc),
{
    if doc.nodes.len() == 0 {
        return Err(GenError::MissingMainContent);
    }
    let cf_pred = Pred::Attr(String::from_str("class"), String::from_str("container-fluid"));
    let cfs = doc.search(doc.root, &cf_pred);
    if cfs.len() == 0 {
        proof {
            assert(doc.search_from(doc.root as int, 0, PredV::Attr("class"@, "container-fluid"@)).len() == 0);
        }
        return Err(GenError::MissingMainContent);
    }
    let cf_site = cfs[0];
    proof {
        assert(sites_view(cfs@)[0] == (cf_site.0 as int, cf_site.1 as int));
        assert(doc.node_wf(cf_site.0 as int));
    }
    let cf_id = doc.nodes[cf_site.0].kids[cf_site.1];
    let art_pred = Pred::Tag(String::from_str("article"));
    let arts = doc.search(cf_id, &art_pred);
    if arts.len() == 0 {
        proof {
            assert(doc.search_from(cf_id as int, 0, PredV::Tag("article"@)).len() == 0);
        }
        return Err(GenError::MissingMainContent);
    }
    let art_site = arts[0];
    proof {
        assert(sites_view(arts@)[0] == (art_site.0 as int, art_site.1 as int));
        assert(doc.node_wf(art_site.0 as int));
    }
    let art_id = doc.nodes[art_site.0].kids[art_site.1];
    let sec_pred = Pred::Tag(String::from_str("section"));
    let secs = doc.search(art_id, &sec_pred);
    extract_sections(doc, &secs, 0)
}

/// Extraction never leaves a parameter named "datatype" in a Function:
/// whatever a pair yields, that one name was dropped after
/// classification.
pub proof fn lemma_extracted_params_no_datatype(doc: Doc, v: Seq<int>, k: int, b: int)
    ensures
        spec_params_from(doc, v, k, b) matches Ok(ps) ==> forall|j: int|
            0 <= j < ps.len() ==> (#[trigger] ps[j]).0 != "datatype"@,
    decreases b - k,
{
    if k >= b {
    } else if k + 1 >= b {
    } else {
        lemma_extracted_params_no_datatype(doc, v, k + 2, b);
        let r0 = spec_param_of(doc, v[k], v[k + 1]);
        let rrest = spec_params_from(doc, v, k + 2, b);
        match r0 {
            Err(_) => {},
            Ok(o) => match rrest {
                Err(_) => {},
                Ok(rest) => match o {
                    None => {},
                    Some(p) => {
                        assert(p.0 != "datatype"@);
                        let ps = seq![p] + rest;
                        assert forall|j: int| 0 <= j < ps.len() implies (#[trigger] ps[j]).0
                            != "datatype"@ by {
                            if j >= 1 {
                                assert(ps[j] == rest[j - 1]);
                            }
                        }
                    },
                },
            },
        }
    }
}

/// Nor does a Function record carry one: its parameter list comes from
/// the pairing above, or is empty.
pub proof fn lemma_function_no_datatype(doc: Doc, parent: int, pos: int)
    ensures
        spec_function_of(doc, parent, pos) matches Ok(f) ==> forall|j: int|
            0 <= j < f.parameters.len() ==> (#[trigger] f.parameters[j]).0 != "datatype"@,
{
    let h4 = doc.nodes[parent].kids[pos] as int;
    if doc.nodes[h4].kids.len() > 0 {
        let v = visible_from(doc, parent, pos + 1);
        let a = first_tag_at(doc, v, 0, "h6"@);
        if a < v.len() {
            lemma_extracted_params_no_datatype(doc, v, a + 1, first_tag_at(doc, v, a + 1, "h6"@));
        }
    }
}

} // verus!
