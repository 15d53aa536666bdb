//! The mangler.
use crate::encoding::{
    all_mangleable, encoded_arg, encoded_args, lemma_fault_persists, mangled, repeat_sep,
    separator_of, unmangleable_kind, MangleFault,
};
use crate::ir::{Path, Type, TypeKind};
use crate::laws::lemma_fails_iff_unmangleable;
use vstd::prelude::*;

verus! {

/// The error returned for an argument that has no flat spelling: a reference,
/// a pointer, an array or a function pointer.
#[derive(Debug, PartialEq, Eq)]
pub struct MangleError {
    /// The name whose argument list holds the offending argument.
    pub name: String,
    /// The argument's position in that list.
    pub index: usize,
    pub kind: TypeKind,
}

impl View for MangleError {
    type V = MangleFault;

    open spec fn view(&self) -> MangleFault {
        MangleFault { name: self.name@, index: self.index as int, kind: self.kind }
    }
}

/// What a result of the mangler stands for.
pub open spec fn result_view(r: Result<String, MangleError>) -> Result<Seq<char>, MangleFault> {
    match r {
        Ok(s) => Ok(s@),
        Err(e) => Err(e@),
    }
}

/// What a mangled path stands for: its name.
pub open spec fn path_result_view(r: Result<Path, MangleError>) -> Result<Seq<char>, MangleFault> {
    match r {
        Ok(p) => Ok(p.name@),
        Err(e) => Err(e@),
    }
}

/// Mangles `path`'s name with `generic_values` and returns a path that holds
/// the mangled name alone.
pub fn mangle_path(path: &Path, generic_values: &[Type], mangle_separator: &Option<String>) -> (r:
    Result<Path, MangleError>)
    ensures
        path_result_view(r) == mangled(
            path.name@,
            generic_values@,
            true,
            separator_of(*mangle_separator),
        ),
        r is Err <==> !all_mangleable(generic_values@),
        r is Err ==> unmangleable_kind(r->Err_0.kind),
        generic_values@.len() == 0 ==> r is Ok && r->Ok_0.name@ == path.name@,
        generic_values@.len() > 0 && r is Ok ==> (path.name@ + separator_of(
            *mangle_separator,
        )).is_prefix_of(r->Ok_0.name@),
{
    proof {
        lemma_fails_iff_unmangleable(
            path.name@,
            generic_values@,
            true,
            separator_of(*mangle_separator),
        );
    }
    internal_mangle_path(path, generic_values, true, mangle_separator)
}

/// Mangles `name` with `generic_values`.
pub fn mangle_name(name: &str, generic_values: &[Type], mangle_separator: &Option<String>) -> (r:
    Result<String, MangleError>)
    ensures
        result_view(r) == mangled(name@, generic_values@, true, separator_of(*mangle_separator)),
        r is Err <==> !all_mangleable(generic_values@),
        r is Err ==> unmangleable_kind(r->Err_0.kind),
        generic_values@.len() == 0 ==> r is Ok && r->Ok_0@ == name@,
        generic_values@.len() > 0 && r is Ok ==> (name@ + separator_of(
            *mangle_separator,
        )).is_prefix_of(r->Ok_0@),
{
    proof {
        lemma_fails_iff_unmangleable(
            name@,
            generic_values@,
            true,
            separator_of(*mangle_separator),
        );
    }
    internal_mangle_name(name, generic_values, true, mangle_separator)
}

fn internal_mangle_path(
    path: &Path,
    generic_values: &[Type],
    last_in_parent: bool,
    mangle_separator: &Option<String>,
) -> (r: Result<Path, MangleError>)
    ensures
        path_result_view(r) == mangled(
            path.name@,
            generic_values@,
            last_in_parent,
            separator_of(*mangle_separator),
        ),
{
    let name = path.name();
    match internal_mangle_name(name, generic_values, last_in_parent, mangle_separator) {
        Ok(mangled_name) => Ok(Path::new(mangled_name.as_str())),
        Err(e) => Err(e),
    }
}

fn internal_mangle_name(
    name: &str,
    generic_values: &[Type],
    last_in_parent: bool,
    mangle_separator: &Option<String>,
) -> (r: Result<String, MangleError>)
    ensures
        result_view(r) == mangled(
            name@,
            generic_values@,
            last_in_parent,
            separator_of(*mangle_separator),
        ),
    decreases generic_values@, 1nat,
{
    if generic_values.len() == 0 {
        return Ok(name.to_owned());
    }
    let ghost args = generic_values@;
    let ghost sep = separator_of(*mangle_separator);
    let separator = match mangle_separator {
        Some(s) => s.clone(),
        None => String::from_str("_"),
    };
    proof {
        reveal_strlit("_");
        assert(separator@ =~= sep);
    }

    let mut mangled = name.to_owned();
    mangled.append(separator.as_str());
    let n = generic_values.len();
    let mut i: usize = 0;
    while i < n
        invariant
            n == args.len(),
            args == generic_values@,
            0 < n,
            i <= n,
            separator@ == sep,
            sep == separator_of(*mangle_separator),
            encoded_args(name@, args, i as nat, last_in_parent, sep) is Ok,
            mangled@ == name@ + sep + encoded_args(
                name@,
                args,
                i as nat,
                last_in_parent,
                sep,
            )->Ok_0,
        decreases n - i,
    {
        match mangle_argument(name, generic_values, i, last_in_parent, separator.as_str(), mangle_separator) {
            Ok(item) => {
                proof {
                    assert(mangled@ + item@ =~= name@ + sep + encoded_args(
                        name@,
                        args,
                        (i + 1) as nat,
                        last_in_parent,
                        sep,
                    )->Ok_0);
                }
                mangled.append(item.as_str());
            },
            Err(e) => {
                proof {
                    lemma_fault_persists(name@, args, (i + 1) as nat, n as nat, last_in_parent, sep);
                }
                return Err(e);
            },
        }
        i = i + 1;
    }
    Ok(mangled)
}

/// The encoding of argument `i` of `generic_values`, markers included.
fn mangle_argument(
    name: &str,
    generic_values: &[Type],
    i: usize,
    last_in_parent: bool,
    separator: &str,
    mangle_separator: &Option<String>,
) -> (r: Result<String, MangleError>)
    requires
        i < generic_values@.len(),
        separator@ == separator_of(*mangle_separator),
    ensures
        result_view(r) == encoded_arg(
            name@,
            generic_values@,
            i as nat,
            last_in_parent,
            separator@,
        ),
    decreases generic_values@, 0nat,
{
    let is_last = i == generic_values.len() - 1;
    let mut item = String::new();
    if i != 0 {
        let boundary = concat_separators(separator, 2);
        item.append(boundary.as_str());
    }
    let ty = &generic_values[i];
    match ty {
        Type::Path(generic) => {
            match internal_mangle_name(
                generic.export_name(),
                generic.generics(),
                last_in_parent && is_last,
                mangle_separator,
            ) {
                Ok(inner) => item.append(inner.as_str()),
                Err(e) => return Err(e),
            }
        },
        Type::Primitive(primitive) => item.append(primitive.to_repr_rust()),
        _ => return Err(MangleError { name: name.to_owned(), index: i, kind: ty.kind() }),
    }
    // The closing marker is left out where nothing follows.
    if is_last && !last_in_parent {
        let closing = concat_separators(separator, 3);
        item.append(closing.as_str());
    }
    proof {
        assert(item@ =~= encoded_arg(name@, generic_values@, i as nat, last_in_parent, separator@)->Ok_0);
    }
    Ok(item)
}


fn concat_separators(separator: &str, number: u8) -> (r: String)
    ensures
        r@ == repeat_sep(separator@, number as nat),
{
    let mut result = String::new();
    let mut i: u8 = 0;
    while i < number
        invariant
            i <= number,
            result@ == repeat_sep(separator@, i as nat),
        decreases number - i,
    {
        result.append(separator);
        i = i + 1;
    }
    result
}

} // verus!
