//! The in-memory schema document that the generator reads, and the errors
//! that abort a generation run.

use vstd::prelude::*;

verus! {

/// The shape of one schema node. Child nodes are named by their index in
/// [`Document::nodes`].
#[derive(Clone, Debug, PartialEq, Eq)]
pub enum Shape {
    Text,
    Integer,
    /// A number that need not be whole.
    Number,
    Boolean,
    DateTime,
    Date,
    /// A sequence of values of the node `item`.
    List { item: usize },
    /// A record with named fields.
    Object { fields: Vec<Field> },
    /// One of a fixed set of strings.
    Choice { values: Vec<String> },
    /// A reference such as `#/components/schemas/Pet`.
    Ref { target: String },
    /// A combination of the part schemas.
    Composite { combine: Combine, parts: Vec<usize> },
}

/// How a composite schema combines its parts.
#[derive(Clone, Copy, Debug, PartialEq, Eq, Structural)]
pub enum Combine {
    /// A value matches every part.
    AllOf,
    /// A value matches exactly one part.
    OneOf,
    /// A value matches at least one part.
    AnyOf,
}

/// A named field of an object schema.
#[derive(Clone, Debug, PartialEq, Eq)]
pub struct Field {
    pub name: String,
    pub node: usize,
}

/// One schema fragment with its documentation.
#[derive(Clone, Debug, PartialEq, Eq)]
pub struct SchemaNode {
    pub shape: Shape,
    pub description: String,
}

/// A schema of the document's component table, named so that references
/// can reach it.
#[derive(Clone, Debug, PartialEq, Eq)]
pub struct Component {
    pub name: String,
    pub node: usize,
}

/// Where a parameter is bound in a request.
#[derive(Clone, Copy, Debug, PartialEq, Eq, Structural)]
pub enum Location {
    Path,
    Query,
    Header,
    Cookie,
}

/// The definition of one operation parameter.
#[derive(Clone, Debug, PartialEq, Eq)]
pub struct ParamData {
    pub name: String,
    pub location: Location,
    pub description: Option<String>,
    /// The node of the parameter's schema.
    pub schema: usize,
    pub required: bool,
    /// Whether a query parameter uses the form style.
    pub form_style: bool,
    pub allow_empty_value: Option<bool>,
}

/// A parameter given in place, or a reference such as
/// `#/components/parameters/PageSize` into the shared parameter table.
#[derive(Clone, Debug, PartialEq, Eq)]
pub enum ParamRef {
    Inline(ParamData),
    Named(String),
}

/// An entry of the shared parameter table.
#[derive(Clone, Debug, PartialEq, Eq)]
pub struct SharedParam {
    pub name: String,
    pub param: ParamData,
}

/// One content type of a request body or response.
#[derive(Clone, Debug, PartialEq, Eq)]
pub struct MediaType {
    pub content_type: String,
    pub schema: Option<usize>,
    /// Whether the media type declares encoding metadata.
    pub has_encoding: bool,
}

/// The body of a request, by content type in declared order. Where a
/// content type is listed twice, the first entry is the one that counts.
#[derive(Clone, Debug, PartialEq, Eq)]
pub struct RequestBody {
    pub content: Vec<MediaType>,
}

/// One declared response, by content type in declared order. Where a
/// content type is listed twice, the first entry is the one that counts.
#[derive(Clone, Debug, PartialEq, Eq)]
pub struct Response {
    pub content: Vec<MediaType>,
}

/// One operation of a path.
#[derive(Clone, Debug, PartialEq, Eq)]
pub struct Operation {
    pub operation_id: String,
    pub tags: Vec<String>,
    pub summary: Option<String>,
    pub description: Option<String>,
    pub external_docs: Option<String>,
    pub parameters: Vec<ParamRef>,
    pub request_body: Option<RequestBody>,
    pub responses: Vec<Response>,
}

/// An HTTP method.
#[derive(Clone, Copy, Debug, PartialEq, Eq, Structural)]
pub enum Verb {
    Get,
    Put,
    Post,
    Delete,
    Options,
    Head,
    Patch,
    Trace,
}

/// A path and its operations, at most one per method.
#[derive(Clone, Debug, PartialEq, Eq)]
pub struct PathItem {
    pub path: String,
    pub get: Option<Operation>,
    pub put: Option<Operation>,
    pub post: Option<Operation>,
    pub delete: Option<Operation>,
    pub options: Option<Operation>,
    pub head: Option<Operation>,
    pub patch: Option<Operation>,
    pub trace: Option<Operation>,
}

/// A whole API description.
#[derive(Clone, Debug, PartialEq, Eq)]
pub struct Document {
    pub paths: Vec<PathItem>,
    /// The arena of schema nodes.
    pub nodes: Vec<SchemaNode>,
    pub components: Vec<Component>,
    pub parameters: Vec<SharedParam>,
}

/// Why a generation run stopped. Each carries the offending text.
#[derive(Clone, Debug, PartialEq, Eq)]
pub enum GenError {
    /// An operation without exactly one tag; carries the operation id.
    TagCardinality(String),
    /// A parameter reference missing from the shared table.
    UnknownParameterReference(String),
    /// An allow-empty-value query parameter, or encoding metadata on a
    /// response; carries the parameter name or content type.
    UnsupportedQuerySemantics(String),
    /// A path with unbalanced braces or an empty placeholder.
    MalformedTemplate(String),
    /// A response that no content-type rule covers; carries the operation id.
    UnrepresentableResponse(String),
    /// A method that needs an authenticated request; carries the operation id.
    MissingAuthenticationContext(String),
    /// A schema reference that names no component.
    DanglingSchemaReference(String),
}

/// The kind of a [`GenError`].
#[derive(Clone, Copy, Debug, PartialEq, Eq, Structural)]
pub enum ErrorKind {
    TagCardinality,
    UnknownParameterReference,
    UnsupportedQuerySemantics,
    MalformedTemplate,
    UnrepresentableResponse,
    MissingAuthenticationContext,
    DanglingSchemaReference,
}

/// An error as its kind and the text it carries.
pub type Fault = (ErrorKind, Seq<char>);

impl View for GenError {
    type V = Fault;

    open spec fn view(&self) -> Fault {
        match self {
            GenError::TagCardinality(t) => (ErrorKind::TagCardinality, t@),
            GenError::UnknownParameterReference(t) => (ErrorKind::UnknownParameterReference, t@),
            GenError::UnsupportedQuerySemantics(t) => (ErrorKind::UnsupportedQuerySemantics, t@),
            GenError::MalformedTemplate(t) => (ErrorKind::MalformedTemplate, t@),
            GenError::UnrepresentableResponse(t) => (ErrorKind::UnrepresentableResponse, t@),
            GenError::MissingAuthenticationContext(t) => (ErrorKind::MissingAuthenticationContext, t@),
            GenError::DanglingSchemaReference(t) => (ErrorKind::DanglingSchemaReference, t@),
        }
    }
}

impl GenError {
    /// The kind of this error.
    pub fn kind(&self) -> (r: ErrorKind)
        ensures
            r == self@.0,
    {
        match self {
            GenError::TagCardinality(_) => ErrorKind::TagCardinality,
            GenError::UnknownParameterReference(_) => ErrorKind::UnknownParameterReference,
            GenError::UnsupportedQuerySemantics(_) => ErrorKind::UnsupportedQuerySemantics,
            GenError::MalformedTemplate(_) => ErrorKind::MalformedTemplate,
            GenError::UnrepresentableResponse(_) => ErrorKind::UnrepresentableResponse,
            GenError::MissingAuthenticationContext(_) => ErrorKind::MissingAuthenticationContext,
            GenError::DanglingSchemaReference(_) => ErrorKind::DanglingSchemaReference,
        }
    }
}

/// Builds an error of kind `k` carrying text `t`.
pub fn fault(k: ErrorKind, t: &Vec<char>) -> (r: GenError)
    ensures
        r@ == (k, t@),
{
    let s = crate::text::string_of(t);
    match k {
        ErrorKind::TagCardinality => GenError::TagCardinality(s),
        ErrorKind::UnknownParameterReference => GenError::UnknownParameterReference(s),
        ErrorKind::UnsupportedQuerySemantics => GenError::UnsupportedQuerySemantics(s),
        ErrorKind::MalformedTemplate => GenError::MalformedTemplate(s),
        ErrorKind::UnrepresentableResponse => GenError::UnrepresentableResponse(s),
        ErrorKind::MissingAuthenticationContext => GenError::MissingAuthenticationContext(s),
        ErrorKind::DanglingSchemaReference => GenError::DanglingSchemaReference(s),
    }
}

/// The operation of `item` for method `v`.
pub open spec fn op_of(item: PathItem, v: Verb) -> Option<Operation> {
    match v {
        Verb::Get => item.get,
        Verb::Put => item.put,
        Verb::Post => item.post,
        Verb::Delete => item.delete,
        Verb::Options => item.options,
        Verb::Head => item.head,
        Verb::Patch => item.patch,
        Verb::Trace => item.trace,
    }
}

impl PathItem {
    /// The operation declared for method `v`, if any.
    pub fn operation(&self, v: Verb) -> (r: &Option<Operation>)
        ensures
            *r == op_of(*self, v),
    {
        match v {
            Verb::Get => &self.get,
            Verb::Put => &self.put,
            Verb::Post => &self.post,
            Verb::Delete => &self.delete,
            Verb::Options => &self.options,
            Verb::Head => &self.head,
            Verb::Patch => &self.patch,
            Verb::Trace => &self.trace,
        }
    }
}

/// Child nodes come before their parents, so walking a node's shape ends.
pub open spec fn well_formed(doc: Document) -> bool {
    forall|i: int| 0 <= i < doc.nodes@.len() ==> #[trigger] children_before(doc.nodes@, i)
}

/// Every child of node `i` has a smaller index.
pub open spec fn children_before(nodes: Seq<SchemaNode>, i: int) -> bool {
    match nodes[i].shape {
        Shape::List { item } => item < i,
        Shape::Object { fields } => forall|j: int| 0 <= j < fields@.len() ==> #[trigger] fields@[j].node < i,
        Shape::Composite { parts, .. } => forall|j: int| 0 <= j < parts@.len() ==> #[trigger] parts@[j] < i,
        _ => true,
    }
}

} // verus!
