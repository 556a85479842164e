use vstd::prelude::*;

verus! {

/// Whether a parameter is mandatory, or carries a default value used when
/// it is omitted.
#[derive(Clone, Debug)]
pub enum ParameterNecessity {
    Required,
    Optional(String),
}

/// One documented request parameter of an operation.
#[derive(Clone, Debug)]
pub struct Parameter {
    pub name: String,
    pub necessity: ParameterNecessity,
}

/// One callable endpoint binding, derived from one documented function.
#[derive(Clone, Debug)]
pub struct Function {
    pub canonical_name: String,
    pub raw_endpoint_name: String,
    pub description: String,
    pub parameters: Vec<Parameter>,
}

/// A named capability group: one document section's worth of operations.
#[derive(Clone, Debug)]
pub struct Section {
    pub identifier: String,
    pub functions: Vec<Function>,
}

/// A schema violation that makes the whole generation run fail: the model
/// must never be emitted partially.
#[derive(Clone, Copy, Debug, PartialEq, Eq, Structural)]
pub enum GenError {
    MissingMainContent,
    MissingSectionHeading,
    MissingFunctionHeading,
    UnpairedDefinition,
    MissingParameterName,
    MissingDefault,
    UnknownNecessity,
}

/// The mathematical form of a parameter's necessity.
pub enum SpecNecessity {
    Required,
    Optional(Seq<char>),
}

/// The mathematical form of a Function record.
pub struct FunctionV {
    pub canonical_name: Seq<char>,
    pub raw_endpoint_name: Seq<char>,
    pub description: Seq<char>,
    pub parameters: Seq<(Seq<char>, SpecNecessity)>,
}

/// The mathematical form of a Section record.
pub struct SectionV {
    pub identifier: Seq<char>,
    pub functions: Seq<FunctionV>,
}

impl View for ParameterNecessity {
    type V = SpecNecessity;

    open spec fn view(&self) -> SpecNecessity {
        match self {
            ParameterNecessity::Required => SpecNecessity::Required,
            ParameterNecessity::Optional(d) => SpecNecessity::Optional(d@),
        }
    }
}

impl View for Parameter {
    type V = (Seq<char>, SpecNecessity);

    open spec fn view(&self) -> (Seq<char>, SpecNecessity) {
        (self.name@, self.necessity@)
    }
}

/// The mathematical form of a parameter list.
pub open spec fn params_view(v: Seq<Parameter>) -> Seq<(Seq<char>, SpecNecessity)> {
    v.map_values(|p: Parameter| p@)
}

impl View for Function {
    type V = FunctionV;

    open spec fn view(&self) -> FunctionV {
        FunctionV {
            canonical_name: self.canonical_name@,
            raw_endpoint_name: self.raw_endpoint_name@,
            description: self.description@,
            parameters: params_view(self.parameters@),
        }
    }
}

/// The mathematical form of a function list.
pub open spec fn functions_view(v: Seq<Function>) -> Seq<FunctionV> {
    v.map_values(|f: Function| f@)
}

impl View for Section {
    type V = SectionV;

    open spec fn view(&self) -> SectionV {
        SectionV { identifier: self.identifier@, functions: functions_view(self.functions@) }
    }
}

/// The mathematical form of a section list.
pub open spec fn sections_view(v: Seq<Section>) -> Seq<SectionV> {
    v.map_values(|s: Section| s@)
}

/// The mathematical form of one parameter-extraction outcome.
pub open spec fn param_result_view(r: Result<Option<Parameter>, GenError>) -> Result<
    Option<(Seq<char>, SpecNecessity)>,
    GenError,
> {
    match r {
        Ok(None) => Ok(None),
        Ok(Some(p)) => Ok(Some(p@)),
        Err(e) => Err(e),
    }
}

/// The mathematical form of a parameter-list extraction outcome.
pub open spec fn params_result_view(r: Result<Vec<Parameter>, GenError>) -> Result<
    Seq<(Seq<char>, SpecNecessity)>,
    GenError,
> {
    match r {
        Ok(v) => Ok(params_view(v@)),
        Err(e) => Err(e),
    }
}

/// The mathematical form of a function-extraction outcome.
pub open spec fn function_result_view(r: Result<Function, GenError>) -> Result<
    FunctionV,
    GenError,
> {
    match r {
        Ok(f) => Ok(f@),
        Err(e) => Err(e),
    }
}

/// The mathematical form of a function-list extraction outcome.
pub open spec fn functions_result_view(r: Result<Vec<Function>, GenError>) -> Result<
    Seq<FunctionV>,
    GenError,
> {
    match r {
        Ok(v) => Ok(functions_view(v@)),
        Err(e) => Err(e),
    }
}

/// The mathematical form of a section-extraction outcome.
pub open spec fn section_result_view(r: Result<Section, GenError>) -> Result<SectionV, GenError> {
    match r {
        Ok(s) => Ok(s@),
        Err(e) => Err(e),
    }
}

/// The mathematical form of a whole-scan outcome.
pub open spec fn sections_result_view(r: Result<Vec<Section>, GenError>) -> Result<
    Seq<SectionV>,
    GenError,
> {
    match r {
        Ok(v) => Ok(sections_view(v@)),
        Err(e) => Err(e),
    }
}

} // verus!
