//! Laws of the mangling scheme.
use crate::encoding::{
    all_mangleable, encoded_arg, encoded_args, mangleable, mangled, repeat_sep, separator_of,
    unmangleable_kind, MangleFault,
};
use crate::ir::Type;
use crate::mangle::{result_view, MangleError};
use vstd::prelude::*;

verus! {

/// A mangling fails exactly where some argument, at any depth, is a
/// reference, a pointer, an array or a function pointer; the fault then names
/// such a kind.
pub proof fn lemma_fails_iff_unmangleable(
    name: Seq<char>,
    args: Seq<Type>,
    last: bool,
    sep: Seq<char>,
)
    ensures
        mangled(name, args, last, sep) is Err <==> !all_mangleable(args),
        mangled(name, args, last, sep) is Err ==> unmangleable_kind(
            mangled(name, args, last, sep)->Err_0.kind,
        ),
    decreases args, 2nat, 0nat,
{
    if args.len() > 0 {
        lemma_args_fail_iff(name, args, args.len(), last, sep);
    }
}

proof fn lemma_args_fail_iff(name: Seq<char>, args: Seq<Type>, k: nat, last: bool, sep: Seq<char>)
    requires
        k <= args.len(),
    ensures
        encoded_args(name, args, k, last, sep) is Ok <==> forall|j: int|
            0 <= j < k ==> mangleable(#[trigger] args[j]),
        encoded_args(name, args, k, last, sep) is Err ==> unmangleable_kind(
            encoded_args(name, args, k, last, sep)->Err_0.kind,
        ),
    decreases args, 1nat, k,
{
    if k > 0 {
        lemma_args_fail_iff(name, args, (k - 1) as nat, last, sep);
        lemma_arg_fails_iff(name, args, (k - 1) as nat, last, sep);
        if encoded_args(name, args, k, last, sep) is Ok {
            assert forall|j: int| 0 <= j < k implies mangleable(#[trigger] args[j]) by {
                if j < k - 1 {
                    assert(mangleable(args[j]));
                }
            }
        }
    }
}

proof fn lemma_arg_fails_iff(name: Seq<char>, args: Seq<Type>, i: nat, last: bool, sep: Seq<char>)
    requires
        i < args.len(),
    ensures
        encoded_arg(name, args, i, last, sep) is Ok <==> mangleable(args[i as int]),
        encoded_arg(name, args, i, last, sep) is Err ==> unmangleable_kind(
            encoded_arg(name, args, i, last, sep)->Err_0.kind,
        ),
    decreases args, 0nat, 0nat,
{
    if let Type::Path(g) = args[i as int] {
        lemma_fails_iff_unmangleable(
            g.export_name@,
            g.generics@,
            last && i == args.len() - 1,
            sep,
        );
    }
}

/// Mangling an empty argument list gives the name back unchanged, whatever
/// the separator.
pub proof fn lemma_identity(name: Seq<char>, last: bool, sep: Seq<char>)
    ensures
        mangled(name, Seq::empty(), last, sep) == Ok::<Seq<char>, MangleFault>(name),
{
}

/// Two results of `mangle_name` on the same name, arguments and separator
/// are the same.
pub proof fn lemma_deterministic(
    name: Seq<char>,
    args: Seq<Type>,
    sep: Option<String>,
    r1: Result<String, MangleError>,
    r2: Result<String, MangleError>,
)
    requires
        result_view(r1) == mangled(name, args, true, separator_of(sep)),
        result_view(r2) == mangled(name, args, true, separator_of(sep)),
    ensures
        result_view(r1) == result_view(r2),
{
}

/// A piece of a mangled name: text taken over as it is, or a marker, which is
/// the separator written a given number of times.
pub enum Piece {
    Text(Seq<char>),
    Marker(nat),
}

pub open spec fn render_piece(p: Piece, sep: Seq<char>) -> Seq<char> {
    match p {
        Piece::Text(t) => t,
        Piece::Marker(n) => repeat_sep(sep, n),
    }
}

/// The pieces written out one after the other with the separator `sep`.
pub open spec fn render(ps: Seq<Piece>, sep: Seq<char>) -> Seq<char>
    decreases ps.len(),
{
    if ps.len() == 0 {
        Seq::empty()
    } else {
        render(ps.drop_last(), sep) + render_piece(ps.last(), sep)
    }
}

pub open spec fn rendered(r: Result<Seq<Piece>, MangleFault>, sep: Seq<char>) -> Result<
    Seq<char>,
    MangleFault,
> {
    match r {
        Ok(ps) => Ok(render(ps, sep)),
        Err(f) => Err(f),
    }
}

/// The shape of a mangling, which no separator enters: the names and
/// primitive spellings, and the markers between them.
pub open spec fn layout(name: Seq<char>, args: Seq<Type>, last: bool) -> Result<
    Seq<Piece>,
    MangleFault,
>
    decreases args, 2nat, 0nat,
{
    if args.len() == 0 {
        Ok(seq![Piece::Text(name)])
    } else {
        match layout_args(name, args, args.len(), last) {
            Ok(body) => Ok(seq![Piece::Text(name), Piece::Marker(1)] + body),
            Err(f) => Err(f),
        }
    }
}

pub open spec fn layout_args(name: Seq<char>, args: Seq<Type>, k: nat, last: bool) -> Result<
    Seq<Piece>,
    MangleFault,
>
    decreases args, 1nat, k,
{
    if k == 0 || k > args.len() {
        Ok(Seq::empty())
    } else {
        match layout_args(name, args, (k - 1) as nat, last) {
            Ok(front) => match layout_arg(name, args, (k - 1) as nat, last) {
                Ok(item) => Ok(front + item),
                Err(f) => Err(f),
            },
            Err(f) => Err(f),
        }
    }
}

pub open spec fn layout_arg(name: Seq<char>, args: Seq<Type>, i: nat, last: bool) -> Result<
    Seq<Piece>,
    MangleFault,
>
    decreases args, 0nat, 0nat,
{
    if i >= args.len() {
        Ok(Seq::empty())
    } else {
        let is_last = i == args.len() - 1;
        let opening = if i > 0 {
            seq![Piece::Marker(2)]
        } else {
            Seq::empty()
        };
        let closing = if is_last && !last {
            seq![Piece::Marker(3)]
        } else {
            Seq::empty()
        };
        match args[i as int] {
            Type::Path(g) => match layout(g.export_name@, g.generics@, last && is_last) {
                Ok(inner) => Ok(opening + inner + closing),
                Err(f) => Err(f),
            },
            Type::Primitive(p) => Ok(opening + seq![Piece::Text(p.repr())] + closing),
            t => Err(MangleFault { name, index: i as int, kind: t.kind() }),
        }
    }
}

proof fn lemma_render_concat(a: Seq<Piece>, b: Seq<Piece>, sep: Seq<char>)
    ensures
        render(a + b, sep) == render(a, sep) + render(b, sep),
    decreases b.len(),
{
    if b.len() == 0 {
        assert(a + b =~= a);
    } else {
        lemma_render_concat(a, b.drop_last(), sep);
        assert((a + b).drop_last() =~= a + b.drop_last());
    }
}

/// The separator only spells the markers: with any two separators the
/// mangled names are the same layout written out, or fail with the same
/// fault.
pub proof fn lemma_separator_spells_markers_only(
    name: Seq<char>,
    args: Seq<Type>,
    last: bool,
    sep1: Seq<char>,
    sep2: Seq<char>,
)
    ensures
        mangled(name, args, last, sep1) == rendered(layout(name, args, last), sep1),
        mangled(name, args, last, sep2) == rendered(layout(name, args, last), sep2),
{
    lemma_mangled_renders_layout(name, args, last, sep1);
    lemma_mangled_renders_layout(name, args, last, sep2);
}

proof fn lemma_mangled_renders_layout(name: Seq<char>, args: Seq<Type>, last: bool, sep: Seq<char>)
    ensures
        mangled(name, args, last, sep) == rendered(layout(name, args, last), sep),
    decreases args, 2nat, 0nat,
{
    reveal_with_fuel(render, 3);
    if args.len() == 0 {
        assert(render(seq![Piece::Text(name)], sep) =~= name);
    } else {
        lemma_args_render_layout(name, args, args.len(), last, sep);
        if let Ok(body) = layout_args(name, args, args.len(), last) {
            let head = seq![Piece::Text(name), Piece::Marker(1)];
            lemma_render_concat(head, body, sep);
            assert(head.drop_last() =~= seq![Piece::Text(name)]);
            assert(seq![Piece::Text(name)].drop_last() =~= Seq::<Piece>::empty());
            reveal_with_fuel(repeat_sep, 2);
            assert(repeat_sep(sep, 1) =~= sep);
        }
    }
}

proof fn lemma_args_render_layout(
    name: Seq<char>,
    args: Seq<Type>,
    k: nat,
    last: bool,
    sep: Seq<char>,
)
    ensures
        encoded_args(name, args, k, last, sep) == rendered(layout_args(name, args, k, last), sep),
    decreases args, 1nat, k,
{
    if k == 0 || k > args.len() {
        assert(render(Seq::<Piece>::empty(), sep) =~= Seq::<char>::empty());
    } else {
        lemma_args_render_layout(name, args, (k - 1) as nat, last, sep);
        lemma_arg_render_layout(name, args, (k - 1) as nat, last, sep);
        if let Ok(front) = layout_args(name, args, (k - 1) as nat, last) {
            if let Ok(item) = layout_arg(name, args, (k - 1) as nat, last) {
                lemma_render_concat(front, item, sep);
            }
        }
    }
}

proof fn lemma_arg_render_layout(
    name: Seq<char>,
    args: Seq<Type>,
    i: nat,
    last: bool,
    sep: Seq<char>,
)
    ensures
        encoded_arg(name, args, i, last, sep) == rendered(layout_arg(name, args, i, last), sep),
    decreases args, 0nat, 0nat,
{
    reveal_with_fuel(render, 2);
    if i >= args.len() {
        assert(render(Seq::<Piece>::empty(), sep) =~= Seq::<char>::empty());
    } else {
        let is_last = i == args.len() - 1;
        let opening = if i > 0 {
            seq![Piece::Marker(2)]
        } else {
            Seq::<Piece>::empty()
        };
        let closing = if is_last && !last {
            seq![Piece::Marker(3)]
        } else {
            Seq::<Piece>::empty()
        };
        assert(opening.len() > 0 ==> opening.drop_last() =~= Seq::<Piece>::empty());
        assert(closing.len() > 0 ==> closing.drop_last() =~= Seq::<Piece>::empty());
        let middle = match args[i as int] {
            Type::Path(g) => {
                lemma_mangled_renders_layout(g.export_name@, g.generics@, last && is_last, sep);
                layout(g.export_name@, g.generics@, last && is_last)
            },
            Type::Primitive(p) => {
                let t = seq![Piece::Text(p.repr())];
                assert(t.drop_last() =~= Seq::<Piece>::empty());
                Ok(t)
            },
            _ => Ok(Seq::empty()),
        };
        if let Ok(m) = middle {
            lemma_render_concat(opening, m, sep);
            lemma_render_concat(opening + m, closing, sep);
        }
    }
}

} // verus!
