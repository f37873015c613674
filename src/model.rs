use vstd::prelude::*;

verus! {

/// Modification time of an artifact, in nanoseconds since the Unix epoch.
pub type Timestamp = u128;

/// A decoded analysis record for one compilation unit.
#[derive(Debug)]
pub struct Analysis {
    pub kind: Format,
    pub prelude: Option<CratePreludeData>,
    pub imports: Vec<Import>,
    pub defs: Vec<Def>,
    pub refs: Vec<Ref>,
    pub macro_refs: Vec<MacroRef>,
}

/// The build profile that produced a set of artifacts.
#[derive(Copy, Clone, Debug, PartialEq, Eq, Structural)]
pub enum Target {
    Release,
    Debug,
}

/// The encoding that the analysis producer used.
#[derive(Copy, Clone, Debug, PartialEq, Eq, Structural)]
pub enum Format {
    Csv,
    Json,
    JsonApi,
}

/// One loaded unit: its record, the modification time observed when it was
/// read, and the path of its artifact.
pub struct Crate {
    pub analysis: Analysis,
    pub timestamp: Timestamp,
    pub path: String,
}

impl Crate {
    pub fn new(analysis: Analysis, timestamp: Timestamp, path: String) -> (r: Crate)
        ensures
            r.analysis == analysis,
            r.timestamp == timestamp,
            r.path == path,
    {
        Crate { analysis, timestamp, path }
    }
}

pub open spec fn target_name(t: Target) -> Seq<char> {
    match t {
        Target::Release => "release"@,
        Target::Debug => "debug"@,
    }
}

impl Target {
    /// The lower-case name of the profile, as used in build directory names.
    pub fn to_string(&self) -> (r: String)
        ensures
            r@ == target_name(*self),
    {
        match *self {
            Target::Release => "release".to_string(),
            Target::Debug => "debug".to_string(),
        }
    }
}

/// A weak reference to a definition: (unit index, index within the unit).
#[derive(Debug)]
pub struct CompilerId {
    pub krate: u32,
    pub index: u32,
}

#[derive(Debug)]
pub struct CratePreludeData {
    pub crate_name: String,
    pub crate_root: String,
    pub external_crates: Vec<ExternalCrateData>,
    pub span: SpanData,
}

#[derive(Debug)]
pub struct ExternalCrateData {
    pub name: String,
    pub num: u32,
    pub file_name: String,
}

#[derive(Debug)]
pub struct Def {
    pub kind: DefKind,
    pub id: CompilerId,
    pub span: SpanData,
    pub name: String,
    pub qualname: String,
    pub parent: Option<CompilerId>,
    pub children: Option<Vec<CompilerId>>,
    pub value: String,
    pub docs: String,
    pub sig: Option<Signature>,
}

#[derive(Debug, Eq, PartialEq, Clone, Copy, Structural)]
pub enum DefKind {
    Enum,
    Tuple,
    Struct,
    Trait,
    Function,
    Method,
    Macro,
    Mod,
    Type,
    Local,
    Static,
    Const,
    Field,
    Import,
}

/// The namespace of a definition kind: `'t'` for types, `'v'` for values,
/// `'m'` for macros; imports have none.
pub open spec fn namespace_of(k: DefKind) -> Option<char> {
    match k {
        DefKind::Enum | DefKind::Tuple | DefKind::Struct | DefKind::Type | DefKind::Trait => Some('t'),
        DefKind::Function | DefKind::Method | DefKind::Mod | DefKind::Local | DefKind::Static
        | DefKind::Const | DefKind::Field => Some('v'),
        DefKind::Macro => Some('m'),
        DefKind::Import => None,
    }
}

impl DefKind {
    /// The namespace of this kind. Imports have no namespace, so asking for
    /// one is a caller's error.
    pub fn name_space(&self) -> (r: char)
        requires
            *self != DefKind::Import,
        ensures
            namespace_of(*self) == Some(r),
    {
        match *self {
            DefKind::Enum | DefKind::Tuple | DefKind::Struct | DefKind::Type | DefKind::Trait => 't',
            DefKind::Function | DefKind::Method | DefKind::Mod | DefKind::Local | DefKind::Static
            | DefKind::Const | DefKind::Field => 'v',
            // The precondition leaves imports out.
            DefKind::Macro | DefKind::Import => 'm',
        }
    }

    /// The namespace of this kind, or `None` for an import.
    pub fn try_name_space(&self) -> (r: Option<char>)
        ensures
            r == namespace_of(*self),
    {
        match *self {
            DefKind::Import => None,
            _ => Some(self.name_space()),
        }
    }
}

#[derive(Debug)]
pub struct Signature {
    pub span: SpanData,
    pub text: String,
    pub ident_start: usize,
    pub ident_end: usize,
    pub defs: Vec<SigElement>,
    pub refs: Vec<SigElement>,
}

#[derive(Debug)]
pub struct SigElement {
    pub id: CompilerId,
    pub start: usize,
    pub end: usize,
}

#[derive(Debug)]
pub struct Ref {
    pub kind: RefKind,
    pub span: SpanData,
    pub ref_id: CompilerId,
}

#[derive(Debug)]
pub enum RefKind {
    Function,
    Mod,
    Type,
    Variable,
}

#[derive(Debug)]
pub struct MacroRef {
    pub span: SpanData,
    pub qualname: String,
    pub callee_span: SpanData,
}

#[derive(Debug)]
pub struct Import {
    pub kind: ImportKind,
    pub ref_id: Option<CompilerId>,
    pub span: SpanData,
    pub name: String,
    pub value: String,
}

#[derive(Debug)]
pub enum ImportKind {
    ExternCrate,
    Use,
    GlobUse,
}

/// A source range. Lines and columns are 1-based; columns count characters.
#[derive(Debug, Clone)]
pub struct SpanData {
    pub file_name: String,
    pub byte_start: u32,
    pub byte_end: u32,
    pub line_start: usize,
    pub line_end: usize,
    pub column_start: usize,
    pub column_end: usize,
}

} // verus!
