//! What a mangled name is, as a function of the name, its arguments and
//! the separator.
use crate::ir::{Type, TypeKind};
use vstd::prelude::*;

verus! {

/// Why an argument list could not be mangled: the name whose list holds the
/// offending argument, the argument's position in that list, and its kind.
pub struct MangleFault {
    pub name: Seq<char>,
    pub index: int,
    pub kind: TypeKind,
}

/// The separator unit: the configured token, or a single underscore.
pub open spec fn separator_of(sep: Option<String>) -> Seq<char> {
    match sep {
        Some(s) => s@,
        None => seq!['_'],
    }
}

/// The encoding of `name` applied to `args`. `last` holds where nothing
/// follows the encoding at any enclosing level, so that its closing marker
/// can be left out.
pub open spec fn mangled(name: Seq<char>, args: Seq<Type>, last: bool, sep: Seq<char>) -> Result<
    Seq<char>,
    MangleFault,
>
    decreases args, 2nat, 0nat,
{
    if args.len() == 0 {
        Ok(name)
    } else {
        match encoded_args(name, args, args.len(), last, sep) {
            Ok(body) => Ok(name + sep + body),
            Err(f) => Err(f),
        }
    }
}

/// The encodings of the first `k` arguments of `args`, one after the other.
pub open spec fn encoded_args(
    name: Seq<char>,
    args: Seq<Type>,
    k: nat,
    last: bool,
    sep: Seq<char>,
) -> Result<Seq<char>, MangleFault>
    decreases args, 1nat, k,
{
    if k == 0 || k > args.len() {
        Ok(Seq::empty())
    } else {
        match encoded_args(name, args, (k - 1) as nat, last, sep) {
            Ok(front) => match encoded_arg(name, args, (k - 1) as nat, last, sep) {
                Ok(item) => Ok(front + item),
                Err(f) => Err(f),
            },
            Err(f) => Err(f),
        }
    }
}

/// The encoding of argument `i` of `args`: the boundary marker before every
/// argument but the first, the argument itself, and after the last one the
/// closing marker unless nothing follows.
pub open spec fn encoded_arg(name: Seq<char>, args: Seq<Type>, i: nat, last: bool, sep: Seq<char>) -> Result<
    Seq<char>,
    MangleFault,
>
    decreases args, 0nat, 0nat,
{
    if i >= args.len() {
        Ok(Seq::empty())
    } else {
        let is_last = i == args.len() - 1;
        let opening = if i > 0 {
            repeat_sep(sep, 2)
        } else {
            Seq::empty()
        };
        let closing = if is_last && !last {
            repeat_sep(sep, 3)
        } else {
            Seq::empty()
        };
        match args[i as int] {
            Type::Path(g) => match mangled(g.export_name@, g.generics@, last && is_last, sep) {
                Ok(inner) => Ok(opening + inner + closing),
                Err(f) => Err(f),
            },
            Type::Primitive(p) => Ok(opening + p.repr() + closing),
            t => Err(MangleFault { name, index: i as int, kind: t.kind() }),
        }
    }
}

/// `sep` written `n` times in a row.
pub open spec fn repeat_sep(sep: Seq<char>, n: nat) -> Seq<char>
    decreases n,
{
    if n == 0 {
        Seq::empty()
    } else {
        repeat_sep(sep, (n - 1) as nat) + sep
    }
}

/// Whether a type has a flat spelling: a primitive, or a path whose own
/// arguments all have one, at every depth.
pub open spec fn mangleable(t: Type) -> bool
    decreases t,
{
    match t {
        Type::Path(g) => all_mangleable(g.generics@),
        Type::Primitive(_) => true,
        _ => false,
    }
}

pub open spec fn all_mangleable(args: Seq<Type>) -> bool
    decreases args,
{
    forall|i: int| 0 <= i < args.len() ==> mangleable(#[trigger] args[i])
}

/// The kinds that have no flat spelling.
pub open spec fn unmangleable_kind(k: TypeKind) -> bool {
    k != TypeKind::Path && k != TypeKind::Primitive
}

/// Once an argument fails, the encoding of every longer run of arguments
/// fails with the same fault.
pub proof fn lemma_fault_persists(
    name: Seq<char>,
    args: Seq<Type>,
    k: nat,
    k2: nat,
    last: bool,
    sep: Seq<char>,
)
    requires
        k <= k2 <= args.len(),
        encoded_args(name, args, k, last, sep) is Err,
    ensures
        encoded_args(name, args, k2, last, sep) == encoded_args(name, args, k, last, sep),
    decreases k2 - k,
{
    if k2 > k {
        lemma_fault_persists(name, args, k, (k2 - 1) as nat, last, sep);
    }
}

} // verus!
