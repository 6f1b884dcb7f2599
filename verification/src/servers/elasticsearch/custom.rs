//! The tools that a configuration adds to the built-in ones.

use vstd::prelude::*;

verus! {

/// indexmap's `IndexMap`, which holds the parameters of a tool in the order
/// of the configuration. It is carried through unread.
#[verifier::external_type_specification]
#[verifier::external_body]
#[verifier::reject_recursive_types(K)]
#[verifier::reject_recursive_types(V)]
#[verifier::reject_recursive_types(S)]
pub struct ExIndexMap<K, V, S>(indexmap::IndexMap<K, V, S>);

/// schemars' `SchemaObject`: the JSON schema of one parameter. It is carried
/// through unread.
#[verifier::external_type_specification]
#[verifier::external_body]
pub struct ExSchemaObject(schemars::schema::SchemaObject);

/// rmcp's `ToolAnnotations`: hints on what a tool does. They are carried
/// through unread.
#[verifier::external_type_specification]
#[verifier::external_body]
pub struct ExToolAnnotations(rmcp::model::ToolAnnotations);

/// What every custom tool has: what it is for, and what it takes.
pub struct ToolBase {
    pub description: String,
    pub parameters: indexmap::IndexMap<String, schemars::schema::SchemaObject>,
    pub annotations: Option<rmcp::model::ToolAnnotations>,
}

/// How the result of an ES|QL tool is put.
#[derive(Clone, Copy, PartialEq, Eq, Structural, Debug)]
pub enum EsqlResultFormat {
    /// Output as JSON, either as an array of objects or as a single object.
    Json,
    /// If a single object with a single property, output only its value.
    Value,
}

impl Default for EsqlResultFormat {
    fn default() -> (format: Self)
        ensures
            format == EsqlResultFormat::Json,
    {
        EsqlResultFormat::Json
    }
}

/// A tool that runs an ES|QL query.
pub struct EsqlTool {
    pub base: ToolBase,
    pub query: String,
    pub format: EsqlResultFormat,
}

/// A search template: one that the backend stores, or one that is given.
pub enum SearchTemplate {
    TemplateId(String),
    Template(serde_json::Value),
}

/// A tool that runs a search template.
pub struct SearchTemplateTool {
    pub base: ToolBase,
    pub template: SearchTemplate,
}

pub enum CustomTool {
    Esql(EsqlTool),
    SearchTemplate(SearchTemplateTool),
}

impl CustomTool {
    /// What the tool has in common with every other.
    pub open spec fn spec_base(&self) -> ToolBase {
        match self {
            CustomTool::Esql(esql) => esql.base,
            CustomTool::SearchTemplate(search_template) => search_template.base,
        }
    }

    pub fn base(&self) -> (base: &ToolBase)
        ensures
            *base == self.spec_base(),
    {
        match self {
            CustomTool::Esql(esql) => &esql.base,
            CustomTool::SearchTemplate(search_template) => &search_template.base,
        }
    }
}

} // verus!
