//! The type model that the mangler reads.
use vstd::prelude::*;

verus! {

/// A named reference; for mangling only its terminal name matters.
#[derive(Debug, Clone, PartialEq, Eq)]
pub struct Path {
    pub name: String,
}

impl Path {
    pub fn new(name: &str) -> (r: Path)
        ensures
            r.name@ == name@,
    {
        Path { name: name.to_owned() }
    }

    pub fn name(&self) -> (r: &str)
        ensures
            r@ == self.name@,
    {
        self.name.as_str()
    }
}

/// A path together with the type arguments it is instantiated with.
#[derive(Debug, PartialEq, Eq)]
pub struct GenericPath {
    pub path: Path,
    pub export_name: String,
    pub generics: Vec<Type>,
}

impl GenericPath {
    /// The export name starts out as the path's own name.
    pub fn new(path: Path, generics: Vec<Type>) -> (r: GenericPath)
        ensures
            r.export_name@ == path.name@,
            r.path == path,
            r.generics == generics,
    {
        let export_name = path.name.clone();
        GenericPath { path, export_name, generics }
    }

    pub fn path(&self) -> (r: &Path)
        ensures
            *r == self.path,
    {
        &self.path
    }

    pub fn export_name(&self) -> (r: &str)
        ensures
            r@ == self.export_name@,
    {
        self.export_name.as_str()
    }

    pub fn generics(&self) -> (r: &[Type])
        ensures
            r@ == self.generics@,
    {
        self.generics.as_slice()
    }
}

/// The built-in types, each with a fixed spelling.
#[derive(Debug, Clone, Copy, PartialEq, Eq)]
pub enum PrimitiveType {
    Void,
    Bool,
    Char,
    SChar,
    UChar,
    Char32,
    Float,
    Double,
    VaList,
    PtrDiffT,
    Int8,
    Int16,
    Int32,
    Int64,
    UInt8,
    UInt16,
    UInt32,
    UInt64,
    ISize,
    USize,
}

impl PrimitiveType {
    /// The Rust spelling of the type.
    pub open spec fn repr(self) -> Seq<char> {
        match self {
            PrimitiveType::Void => "c_void"@,
            PrimitiveType::Bool => "bool"@,
            PrimitiveType::Char => "c_char"@,
            PrimitiveType::SChar => "c_schar"@,
            PrimitiveType::UChar => "c_uchar"@,
            PrimitiveType::Char32 => "char"@,
            PrimitiveType::Float => "f32"@,
            PrimitiveType::Double => "f64"@,
            PrimitiveType::VaList => "va_list"@,
            PrimitiveType::PtrDiffT => "ptrdiff_t"@,
            PrimitiveType::Int8 => "i8"@,
            PrimitiveType::Int16 => "i16"@,
            PrimitiveType::Int32 => "i32"@,
            PrimitiveType::Int64 => "i64"@,
            PrimitiveType::UInt8 => "u8"@,
            PrimitiveType::UInt16 => "u16"@,
            PrimitiveType::UInt32 => "u32"@,
            PrimitiveType::UInt64 => "u64"@,
            PrimitiveType::ISize => "isize"@,
            PrimitiveType::USize => "usize"@,
        }
    }

    pub fn to_repr_rust(&self) -> (r: &'static str)
        ensures
            r@ == self.repr(),
    {
        match self {
            PrimitiveType::Void => "c_void",
            PrimitiveType::Bool => "bool",
            PrimitiveType::Char => "c_char",
            PrimitiveType::SChar => "c_schar",
            PrimitiveType::UChar => "c_uchar",
            PrimitiveType::Char32 => "char",
            PrimitiveType::Float => "f32",
            PrimitiveType::Double => "f64",
            PrimitiveType::VaList => "va_list",
            PrimitiveType::PtrDiffT => "ptrdiff_t",
            PrimitiveType::Int8 => "i8",
            PrimitiveType::Int16 => "i16",
            PrimitiveType::Int32 => "i32",
            PrimitiveType::Int64 => "i64",
            PrimitiveType::UInt8 => "u8",
            PrimitiveType::UInt16 => "u16",
            PrimitiveType::UInt32 => "u32",
            PrimitiveType::UInt64 => "u64",
            PrimitiveType::ISize => "isize",
            PrimitiveType::USize => "usize",
        }
    }
}

/// The kind of a type, without its contents.
#[derive(Debug, Clone, Copy, PartialEq, Eq)]
pub enum TypeKind {
    Path,
    Primitive,
    MutRef,
    Ref,
    ConstPtr,
    Ptr,
    Array,
    FuncPtr,
}

/// A type reference.
#[derive(Debug, PartialEq, Eq)]
pub enum Type {
    Path(GenericPath),
    Primitive(PrimitiveType),
    MutRef(Box<Type>),
    Ref(Box<Type>),
    ConstPtr(Box<Type>),
    Ptr(Box<Type>),
    /// Element type and length, as written.
    Array(Box<Type>, String),
    /// Return type and parameter types.
    FuncPtr(Box<Type>, Vec<Type>),
}

impl Type {
    pub open spec fn spec_kind(&self) -> TypeKind {
        match self {
            Type::Path(_) => TypeKind::Path,
            Type::Primitive(_) => TypeKind::Primitive,
            Type::MutRef(_) => TypeKind::MutRef,
            Type::Ref(_) => TypeKind::Ref,
            Type::ConstPtr(_) => TypeKind::ConstPtr,
            Type::Ptr(_) => TypeKind::Ptr,
            Type::Array(_, _) => TypeKind::Array,
            Type::FuncPtr(_, _) => TypeKind::FuncPtr,
        }
    }

    #[verifier::when_used_as_spec(spec_kind)]
    pub fn kind(&self) -> (r: TypeKind)
        ensures
            r == self.spec_kind(),
    {
        match self {
            Type::Path(_) => TypeKind::Path,
            Type::Primitive(_) => TypeKind::Primitive,
            Type::MutRef(_) => TypeKind::MutRef,
            Type::Ref(_) => TypeKind::Ref,
            Type::ConstPtr(_) => TypeKind::ConstPtr,
            Type::Ptr(_) => TypeKind::Ptr,
            Type::Array(_, _) => TypeKind::Array,
            Type::FuncPtr(_, _) => TypeKind::FuncPtr,
        }
    }
}

} // verus!
