//! Environment specifications: a normalized, compositional description of the
//! changes made to the environment of a subprocess.
use vstd::prelude::*;
use vstd::string::*;

verus! {

/// One environment change, as seen by the contracts.
pub enum EnvMut {
    Add { name: Seq<char>, value: Seq<char> },
    Prepend { name: Seq<char>, value: Seq<char>, sep: Seq<char> },
    Append { name: Seq<char>, value: Seq<char>, sep: Seq<char> },
    Remove { name: Seq<char> },
}

impl EnvMut {
    pub open spec fn var(self) -> Seq<char> {
        match self {
            EnvMut::Add { name, .. } => name,
            EnvMut::Prepend { name, .. } => name,
            EnvMut::Append { name, .. } => name,
            EnvMut::Remove { name } => name,
        }
    }
}

/// The mathematical model of an [EnvSpec]: the changes, outermost (applied
/// last) first, over either the inherited or a blank environment.
pub struct EnvModel {
    pub muts: Seq<EnvMut>,
    pub blank: bool,
}

/// Two changes to one variable may stand together only as one prepend and
/// one append.
pub open spec fn compatible(a: EnvMut, b: EnvMut) -> bool {
    a.var() != b.var() || (a is Prepend && b is Append) || (a is Append && b is Prepend)
}

/// The normalization invariant: after an add or a remove of a variable no
/// other change names it, at most one prepend and one append per variable, and
/// no prepend or append above an add of the same variable.
pub open spec fn normalized(ms: Seq<EnvMut>) -> bool {
    forall|i: int, j: int|
        0 <= i < j < ms.len() ==> #[trigger] compatible(ms[i], ms[j])
}

/// Which changes to a variable a new change hides.
#[derive(Clone, Copy, PartialEq, Eq, Structural)]
pub enum Elide {
    All,
    ForAppend,
    ForPrepend,
}

pub open spec fn shadowed(what: Elide, var: Seq<char>, m: EnvMut) -> bool {
    m.var() == var && match m {
        EnvMut::Prepend { .. } => what != Elide::ForAppend,
        EnvMut::Append { .. } => what != Elide::ForPrepend,
        _ => true,
    }
}

/// The changes that remain once those that `what` hides for `var` are dropped.
pub open spec fn elide_muts(ms: Seq<EnvMut>, what: Elide, var: Seq<char>) -> Seq<EnvMut>
    decreases ms.len(),
{
    if ms.len() == 0 {
        ms
    } else if shadowed(what, var, ms[0]) {
        elide_muts(ms.drop_first(), what, var)
    } else {
        seq![ms[0]] + elide_muts(ms.drop_first(), what, var)
    }
}

/// Folds a prepend into the first add or prepend of the same variable, if any.
pub open spec fn join_prepend_muts(
    ms: Seq<EnvMut>,
    var: Seq<char>,
    value: Seq<char>,
    sep: Seq<char>,
) -> Option<Seq<EnvMut>>
    decreases ms.len(),
{
    if ms.len() == 0 {
        None
    } else {
        match ms[0] {
            EnvMut::Add { name, value: v } if name == var => Some(
                ms.update(0, EnvMut::Add { name, value: value + sep + v }),
            ),
            EnvMut::Prepend { name, value: v, sep: s } if name == var => Some(
                ms.update(0, EnvMut::Prepend { name, value: value + sep + v, sep: s }),
            ),
            _ => match join_prepend_muts(ms.drop_first(), var, value, sep) {
                Some(rest) => Some(seq![ms[0]] + rest),
                None => None,
            },
        }
    }
}

/// Folds an append into the first add or append of the same variable, if any.
pub open spec fn join_append_muts(
    ms: Seq<EnvMut>,
    var: Seq<char>,
    value: Seq<char>,
    sep: Seq<char>,
) -> Option<Seq<EnvMut>>
    decreases ms.len(),
{
    if ms.len() == 0 {
        None
    } else {
        match ms[0] {
            EnvMut::Add { name, value: v } if name == var => Some(
                ms.update(0, EnvMut::Add { name, value: v + sep + value }),
            ),
            EnvMut::Append { name, value: v, sep: s } if name == var => Some(
                ms.update(0, EnvMut::Append { name, value: v + sep + value, sep: s }),
            ),
            _ => match join_append_muts(ms.drop_first(), var, value, sep) {
                Some(rest) => Some(seq![ms[0]] + rest),
                None => None,
            },
        }
    }
}

pub open spec fn add_model(m: EnvModel, var: Seq<char>, value: Seq<char>) -> EnvModel {
    EnvModel {
        muts: seq![EnvMut::Add { name: var, value }] + elide_muts(m.muts, Elide::All, var),
        blank: m.blank,
    }
}

pub open spec fn rmv_model(m: EnvModel, var: Seq<char>) -> EnvModel {
    EnvModel {
        muts: seq![EnvMut::Remove { name: var }] + elide_muts(m.muts, Elide::All, var),
        blank: m.blank,
    }
}

pub open spec fn prepend_model(
    m: EnvModel,
    var: Seq<char>,
    value: Seq<char>,
    sep: Seq<char>,
) -> EnvModel {
    match join_prepend_muts(m.muts, var, value, sep) {
        Some(ms) => EnvModel { muts: ms, blank: m.blank },
        None => EnvModel {
            muts: seq![EnvMut::Prepend { name: var, value, sep }] + elide_muts(
                m.muts,
                Elide::ForPrepend,
                var,
            ),
            blank: m.blank,
        },
    }
}

pub open spec fn append_model(
    m: EnvModel,
    var: Seq<char>,
    value: Seq<char>,
    sep: Seq<char>,
) -> EnvModel {
    match join_append_muts(m.muts, var, value, sep) {
        Some(ms) => EnvModel { muts: ms, blank: m.blank },
        None => EnvModel {
            muts: seq![EnvMut::Append { name: var, value, sep }] + elide_muts(
                m.muts,
                Elide::ForAppend,
                var,
            ),
            blank: m.blank,
        },
    }
}

/// Applies one change on top of a model, as the constructors do.
pub open spec fn apply_mut(m: EnvModel, c: EnvMut) -> EnvModel {
    match c {
        EnvMut::Add { name, value } => add_model(m, name, value),
        EnvMut::Remove { name } => rmv_model(m, name),
        EnvMut::Prepend { name, value, sep } => prepend_model(m, name, value, sep),
        EnvMut::Append { name, value, sep } => append_model(m, name, value, sep),
    }
}

/// Rebuilds the changes `ms` (outermost first) over `base`.
pub open spec fn rebuild(ms: Seq<EnvMut>, base: EnvModel) -> EnvModel
    decreases ms.len(),
{
    if ms.len() == 0 {
        base
    } else {
        apply_mut(rebuild(ms.drop_first(), base), ms[0])
    }
}


/// A change followed by normalized changes is normalized when it is compatible
/// with each of them.
proof fn lemma_normalized_cons(a: EnvMut, ms: Seq<EnvMut>)
    requires
        normalized(ms),
        forall|k: int| 0 <= k < ms.len() ==> #[trigger] compatible(a, ms[k]),
    ensures
        normalized(seq![a] + ms),
{
    let r = seq![a] + ms;
    assert forall|i: int, j: int| 0 <= i < j < r.len() implies #[trigger] compatible(r[i], r[j]) by {
        if i == 0 {
            assert(r[j] == ms[j - 1]);
        } else {
            assert(r[i] == ms[i - 1] && r[j] == ms[j - 1]);
        }
    }
}

/// Eliding keeps only changes of the original that `what` does not hide, in
/// their order, and so keeps the normalization invariant.
proof fn lemma_elide(ms: Seq<EnvMut>, what: Elide, var: Seq<char>)
    ensures
        forall|k: int| 0 <= k < elide_muts(ms, what, var).len() ==> {
            &&& ms.contains(#[trigger] elide_muts(ms, what, var)[k])
            &&& !shadowed(what, var, elide_muts(ms, what, var)[k])
        },
        normalized(ms) ==> normalized(elide_muts(ms, what, var)),
    decreases ms.len(),
{
    if ms.len() > 0 {
        let rest = ms.drop_first();
        lemma_elide(rest, what, var);
        let er = elide_muts(rest, what, var);
        assert forall|k: int| 0 <= k < er.len() implies ms.contains(#[trigger] er[k]) by {
            let w = choose|w: int| 0 <= w < rest.len() && rest[w] == er[k];
            assert(ms[w + 1] == er[k]);
        }
        if normalized(ms) {
            assert(normalized(rest)) by {
                assert forall|i: int, j: int| 0 <= i < j < rest.len() implies #[trigger] compatible(rest[i], rest[j]) by {
                    assert(compatible(ms[i + 1], ms[j + 1]));
                }
            }
            if !shadowed(what, var, ms[0]) {
                assert forall|k: int| 0 <= k < er.len() implies #[trigger] compatible(ms[0], er[k]) by {
                    let w = choose|w: int| 0 <= w < rest.len() && rest[w] == er[k];
                    assert(compatible(ms[0], ms[w + 1]));
                }
                lemma_normalized_cons(ms[0], er);
            }
        }
        let e = elide_muts(ms, what, var);
        if !shadowed(what, var, ms[0]) {
            assert forall|k: int| 0 <= k < e.len() implies ms.contains(#[trigger] e[k]) by {
                if k == 0 {
                    assert(ms[0] == e[k]);
                } else {
                    assert(e[k] == er[k - 1]);
                }
            }
        }
    }
}

/// Two changes to the same variable with the same kind of change.
pub open spec fn same_slot(a: EnvMut, b: EnvMut) -> bool {
    &&& a.var() == b.var()
    &&& (a is Add <==> b is Add)
    &&& (a is Remove <==> b is Remove)
    &&& (a is Prepend <==> b is Prepend)
    &&& (a is Append <==> b is Append)
}

/// Folding a prepend changes one value in place, and happens exactly when an
/// add or a prepend of the variable is present.
proof fn lemma_join_prepend(ms: Seq<EnvMut>, var: Seq<char>, value: Seq<char>, sep: Seq<char>)
    ensures
        join_prepend_muts(ms, var, value, sep) is Some ==> {
            let r = join_prepend_muts(ms, var, value, sep)->0;
            &&& r.len() == ms.len()
            &&& forall|k: int| 0 <= k < ms.len() ==> same_slot(#[trigger] r[k], ms[k])
        },
        join_prepend_muts(ms, var, value, sep) is None ==> forall|k: int|
            0 <= k < ms.len() ==> !((#[trigger] ms[k] is Add || ms[k] is Prepend) && ms[k].var() == var),
    decreases ms.len(),
{
    if ms.len() > 0 {
        let rest = ms.drop_first();
        lemma_join_prepend(rest, var, value, sep);
        assert forall|k: int| 0 < k < ms.len() implies ms[k] == #[trigger] rest[k - 1] by {}
        if join_prepend_muts(ms, var, value, sep) is None {
            assert forall|k: int| 0 <= k < ms.len() implies !((#[trigger] ms[k] is Add || ms[k] is Prepend)
                && ms[k].var() == var) by {
                if k > 0 {
                    assert(ms[k] == rest[k - 1]);
                }
            }
        }
    }
}

/// Folding an append changes one value in place, and happens exactly when an
/// add or an append of the variable is present.
proof fn lemma_join_append(ms: Seq<EnvMut>, var: Seq<char>, value: Seq<char>, sep: Seq<char>)
    ensures
        join_append_muts(ms, var, value, sep) is Some ==> {
            let r = join_append_muts(ms, var, value, sep)->0;
            &&& r.len() == ms.len()
            &&& forall|k: int| 0 <= k < ms.len() ==> same_slot(#[trigger] r[k], ms[k])
        },
        join_append_muts(ms, var, value, sep) is None ==> forall|k: int|
            0 <= k < ms.len() ==> !((#[trigger] ms[k] is Add || ms[k] is Append) && ms[k].var() == var),
    decreases ms.len(),
{
    if ms.len() > 0 {
        let rest = ms.drop_first();
        lemma_join_append(rest, var, value, sep);
        assert forall|k: int| 0 < k < ms.len() implies ms[k] == #[trigger] rest[k - 1] by {}
        if join_append_muts(ms, var, value, sep) is None {
            assert forall|k: int| 0 <= k < ms.len() implies !((#[trigger] ms[k] is Add || ms[k] is Append)
                && ms[k].var() == var) by {
                if k > 0 {
                    assert(ms[k] == rest[k - 1]);
                }
            }
        }
    }
}

/// Changes that differ from normalized ones only in their values are normalized.
proof fn lemma_same_slots_normalized(ms: Seq<EnvMut>, r: Seq<EnvMut>)
    requires
        normalized(ms),
        r.len() == ms.len(),
        forall|k: int| 0 <= k < ms.len() ==> same_slot(#[trigger] r[k], ms[k]),
    ensures
        normalized(r),
{
    assert forall|i: int, j: int| 0 <= i < j < r.len() implies #[trigger] compatible(r[i], r[j]) by {
        assert(same_slot(r[i], ms[i]) && same_slot(r[j], ms[j]));
        assert(compatible(ms[i], ms[j]));
    }
}

/// Each constructor keeps the normalization invariant.
proof fn lemma_apply_normalized(m: EnvModel, c: EnvMut)
    requires
        normalized(m.muts),
    ensures
        normalized(apply_mut(m, c).muts),
{
    let ms = m.muts;
    match c {
        EnvMut::Add { name, value } => {
            lemma_elide(ms, Elide::All, name);
            let e = elide_muts(ms, Elide::All, name);
            assert forall|k: int| 0 <= k < e.len() implies #[trigger] compatible(c, e[k]) by {
                assert(!shadowed(Elide::All, name, e[k]));
            }
            lemma_normalized_cons(c, e);
        },
        EnvMut::Remove { name } => {
            lemma_elide(ms, Elide::All, name);
            let e = elide_muts(ms, Elide::All, name);
            assert forall|k: int| 0 <= k < e.len() implies #[trigger] compatible(c, e[k]) by {
                assert(!shadowed(Elide::All, name, e[k]));
            }
            lemma_normalized_cons(c, e);
        },
        EnvMut::Prepend { name, value, sep } => {
            lemma_join_prepend(ms, name, value, sep);
            match join_prepend_muts(ms, name, value, sep) {
                Some(r) => lemma_same_slots_normalized(ms, r),
                None => {
                    lemma_elide(ms, Elide::ForPrepend, name);
                    let e = elide_muts(ms, Elide::ForPrepend, name);
                    assert forall|k: int| 0 <= k < e.len() implies #[trigger] compatible(c, e[k]) by {
                        assert(!shadowed(Elide::ForPrepend, name, e[k]));
                    }
                    lemma_normalized_cons(c, e);
                },
            }
        },
        EnvMut::Append { name, value, sep } => {
            lemma_join_append(ms, name, value, sep);
            match join_append_muts(ms, name, value, sep) {
                Some(r) => lemma_same_slots_normalized(ms, r),
                None => {
                    lemma_elide(ms, Elide::ForAppend, name);
                    let e = elide_muts(ms, Elide::ForAppend, name);
                    assert forall|k: int| 0 <= k < e.len() implies #[trigger] compatible(c, e[k]) by {
                        assert(!shadowed(Elide::ForAppend, name, e[k]));
                    }
                    lemma_normalized_cons(c, e);
                },
            }
        },
    }
}

/// Eliding what nothing in `ms` matches leaves `ms` as it is.
proof fn lemma_elide_noop(ms: Seq<EnvMut>, what: Elide, var: Seq<char>)
    requires
        forall|k: int| 0 <= k < ms.len() ==> !shadowed(what, var, #[trigger] ms[k]),
    ensures
        elide_muts(ms, what, var) == ms,
    decreases ms.len(),
{
    if ms.len() > 0 {
        let rest = ms.drop_first();
        assert forall|k: int| 0 <= k < rest.len() implies !shadowed(what, var, #[trigger] rest[k]) by {
            assert(rest[k] == ms[k + 1]);
        }
        lemma_elide_noop(rest, what, var);
        assert(ms =~= seq![ms[0]] + rest);
    }
}

/// Eliding twice for the same variable and mode is eliding once.
proof fn lemma_elide_twice(ms: Seq<EnvMut>, what: Elide, var: Seq<char>)
    ensures
        elide_muts(elide_muts(ms, what, var), what, var) == elide_muts(ms, what, var),
{
    lemma_elide(ms, what, var);
    let e = elide_muts(ms, what, var);
    assert forall|k: int| 0 <= k < e.len() implies !shadowed(what, var, #[trigger] e[k]) by {}
    lemma_elide_noop(e, what, var);
}

/// Adding a variable twice is the same as adding it once with the later
/// value: the later add replaces the earlier one.
pub proof fn law_add_twice(m: EnvModel, var: Seq<char>, first: Seq<char>, second: Seq<char>)
    ensures
        add_model(add_model(m, var, first), var, second) == add_model(m, var, second),
{
    let e = elide_muts(m.muts, Elide::All, var);
    let inner = seq![EnvMut::Add { name: var, value: first }] + e;
    assert(inner.drop_first() =~= e);
    lemma_elide_twice(m.muts, Elide::All, var);
}

/// Removing a variable twice is the same as removing it once.
pub proof fn law_rmv_twice(m: EnvModel, var: Seq<char>)
    ensures
        rmv_model(rmv_model(m, var), var) == rmv_model(m, var),
{
    let e = elide_muts(m.muts, Elide::All, var);
    let inner = seq![EnvMut::Remove { name: var }] + e;
    assert(inner.drop_first() =~= e);
    lemma_elide_twice(m.muts, Elide::All, var);
}

/// A prepend to a variable that was just added folds into the added value.
pub proof fn law_prepend_folds_into_add(
    m: EnvModel,
    var: Seq<char>,
    value: Seq<char>,
    pre: Seq<char>,
    sep: Seq<char>,
)
    ensures
        prepend_model(add_model(m, var, value), var, pre, sep) == add_model(
            m,
            var,
            pre + sep + value,
        ),
{
    let e = elide_muts(m.muts, Elide::All, var);
    let inner = seq![EnvMut::Add { name: var, value }] + e;
    assert(inner.update(0, EnvMut::Add { name: var, value: pre + sep + value }) =~= seq![
        EnvMut::Add { name: var, value: pre + sep + value },
    ] + e);
}

/// An append to a variable that was just added folds into the added value.
pub proof fn law_append_folds_into_add(
    m: EnvModel,
    var: Seq<char>,
    value: Seq<char>,
    post: Seq<char>,
    sep: Seq<char>,
)
    ensures
        append_model(add_model(m, var, value), var, post, sep) == add_model(
            m,
            var,
            value + sep + post,
        ),
{
    let e = elide_muts(m.muts, Elide::All, var);
    let inner = seq![EnvMut::Add { name: var, value }] + e;
    assert(inner.update(0, EnvMut::Add { name: var, value: value + sep + post }) =~= seq![
        EnvMut::Add { name: var, value: value + sep + post },
    ] + e);
}

/// Folding a second prepend into the result of a first is folding their
/// joined values once: the later value comes first.
proof fn lemma_join_prepend_twice(
    ms: Seq<EnvMut>,
    var: Seq<char>,
    a: Seq<char>,
    s1: Seq<char>,
    b: Seq<char>,
    s2: Seq<char>,
)
    requires
        join_prepend_muts(ms, var, a, s1) is Some,
    ensures
        join_prepend_muts(join_prepend_muts(ms, var, a, s1)->0, var, b, s2) == join_prepend_muts(
            ms,
            var,
            b + s2 + a,
            s1,
        ),
    decreases ms.len(),
{
    let j = join_prepend_muts(ms, var, a, s1)->0;
    match ms[0] {
        EnvMut::Add { name, value: v } if name == var => {
            assert(b + s2 + (a + s1 + v) =~= (b + s2 + a) + s1 + v);
            assert(j.update(0, EnvMut::Add { name, value: b + s2 + (a + s1 + v) }) =~= ms.update(
                0,
                EnvMut::Add { name, value: (b + s2 + a) + s1 + v },
            ));
        },
        EnvMut::Prepend { name, value: v, sep: t } if name == var => {
            assert(b + s2 + (a + s1 + v) =~= (b + s2 + a) + s1 + v);
            assert(j.update(0, EnvMut::Prepend { name, value: b + s2 + (a + s1 + v), sep: t })
                =~= ms.update(0, EnvMut::Prepend { name, value: (b + s2 + a) + s1 + v, sep: t }));
        },
        _ => {
            let rest = ms.drop_first();
            lemma_join_prepend_twice(rest, var, a, s1, b, s2);
            let jr = join_prepend_muts(rest, var, a, s1)->0;
            assert(j == seq![ms[0]] + jr);
            assert(j.drop_first() =~= jr);
            assert(j[0] == ms[0]);
        },
    }
}

/// Folding a second append into the result of a first is folding their
/// joined values once: the later value comes last.
proof fn lemma_join_append_twice(
    ms: Seq<EnvMut>,
    var: Seq<char>,
    a: Seq<char>,
    s1: Seq<char>,
    b: Seq<char>,
    s2: Seq<char>,
)
    requires
        join_append_muts(ms, var, a, s1) is Some,
    ensures
        join_append_muts(join_append_muts(ms, var, a, s1)->0, var, b, s2) == join_append_muts(
            ms,
            var,
            a + s2 + b,
            s1,
        ),
    decreases ms.len(),
{
    let j = join_append_muts(ms, var, a, s1)->0;
    match ms[0] {
        EnvMut::Add { name, value: v } if name == var => {
            assert(v + s1 + a + s2 + b =~= v + s1 + (a + s2 + b));
            assert(j.update(0, EnvMut::Add { name, value: v + s1 + a + s2 + b }) =~= ms.update(
                0,
                EnvMut::Add { name, value: v + s1 + (a + s2 + b) },
            ));
        },
        EnvMut::Append { name, value: v, sep: t } if name == var => {
            assert(v + s1 + a + s2 + b =~= v + s1 + (a + s2 + b));
            assert(j.update(0, EnvMut::Append { name, value: v + s1 + a + s2 + b, sep: t })
                =~= ms.update(0, EnvMut::Append { name, value: v + s1 + (a + s2 + b), sep: t }));
        },
        _ => {
            let rest = ms.drop_first();
            lemma_join_append_twice(rest, var, a, s1, b, s2);
            let jr = join_append_muts(rest, var, a, s1)->0;
            assert(j == seq![ms[0]] + jr);
            assert(j.drop_first() =~= jr);
            assert(j[0] == ms[0]);
        },
    }
}

/// Whether a prepend or an append folds depends on the variable alone.
proof fn lemma_join_indep(
    ms: Seq<EnvMut>,
    var: Seq<char>,
    x: Seq<char>,
    s: Seq<char>,
    y: Seq<char>,
    t: Seq<char>,
)
    ensures
        (join_prepend_muts(ms, var, x, s) is Some) == (join_prepend_muts(ms, var, y, t) is Some),
        (join_append_muts(ms, var, x, s) is Some) == (join_append_muts(ms, var, y, t) is Some),
    decreases ms.len(),
{
    if ms.len() > 0 {
        lemma_join_indep(ms.drop_first(), var, x, s, y, t);
    }
}

/// Prepending to a variable twice is prepending once: the values join with
/// the later separator, the later value first ("A" then "B" gives "B", the
/// separator, "A"), and the earlier separator is kept.
pub proof fn law_prepend_twice(
    m: EnvModel,
    var: Seq<char>,
    a: Seq<char>,
    s1: Seq<char>,
    b: Seq<char>,
    s2: Seq<char>,
)
    ensures
        prepend_model(prepend_model(m, var, a, s1), var, b, s2) == prepend_model(
            m,
            var,
            b + s2 + a,
            s1,
        ),
{
    lemma_join_indep(m.muts, var, a, s1, b + s2 + a, s1);
    match join_prepend_muts(m.muts, var, a, s1) {
        Some(_) => {
            lemma_join_prepend_twice(m.muts, var, a, s1, b, s2);
        },
        None => {
            let e = elide_muts(m.muts, Elide::ForPrepend, var);
            let inner = seq![EnvMut::Prepend { name: var, value: a, sep: s1 }] + e;
            assert(inner.update(0, EnvMut::Prepend { name: var, value: b + s2 + a, sep: s1 })
                =~= seq![EnvMut::Prepend { name: var, value: b + s2 + a, sep: s1 }] + e);
        },
    }
}

/// Appending to a variable twice is appending once: the values join with the
/// later separator, the later value last, and the earlier separator is kept.
pub proof fn law_append_twice(
    m: EnvModel,
    var: Seq<char>,
    a: Seq<char>,
    s1: Seq<char>,
    b: Seq<char>,
    s2: Seq<char>,
)
    ensures
        append_model(append_model(m, var, a, s1), var, b, s2) == append_model(
            m,
            var,
            a + s2 + b,
            s1,
        ),
{
    lemma_join_indep(m.muts, var, a, s1, a + s2 + b, s1);
    match join_append_muts(m.muts, var, a, s1) {
        Some(_) => {
            lemma_join_append_twice(m.muts, var, a, s1, b, s2);
        },
        None => {
            let e = elide_muts(m.muts, Elide::ForAppend, var);
            let inner = seq![EnvMut::Append { name: var, value: a, sep: s1 }] + e;
            assert(inner.update(0, EnvMut::Append { name: var, value: a + s2 + b, sep: s1 })
                =~= seq![EnvMut::Append { name: var, value: a + s2 + b, sep: s1 }] + e);
        },
    }
}

/// Specifies environment variable settings for a subprocess.  The changes are
/// held in "reverse" order: the last element is the base setting, and each
/// element is applied after the elements that follow it.
#[derive(Debug, PartialEq)]
pub enum EnvSpec {
    /// The parent process's environment is inherited.
    StdEnv,
    /// The subprocess starts from an empty environment.
    BlankEnv,
    /// Use [EnvSpec::add] to construct this.
    EnvAdd(String, String, SubEnvSpec),
    /// Use [EnvSpec::prepend] to construct this.
    EnvPrepend(String, String, String, SubEnvSpec),
    /// Use [EnvSpec::append] to construct this.
    EnvAppend(String, String, String, SubEnvSpec),
    /// Use [EnvSpec::rmv] to construct this.
    EnvRemove(String, SubEnvSpec),
}

/// The nested part of an [EnvSpec]; only this crate can build one, so that
/// the constructors keep the normalization invariant.
#[derive(Debug, PartialEq)]
pub struct SubEnvSpec {
    pub(crate) se: Box<EnvSpec>,
}

pub closed spec fn env_muts(e: EnvSpec) -> Seq<EnvMut>
    decreases e,
{
    match e {
        EnvSpec::StdEnv => seq![],
        EnvSpec::BlankEnv => seq![],
        EnvSpec::EnvAdd(n, v, sub) => seq![EnvMut::Add { name: n@, value: v@ }] + env_muts(
            *sub.se,
        ),
        EnvSpec::EnvPrepend(n, v, s, sub) => seq![
            EnvMut::Prepend { name: n@, value: v@, sep: s@ },
        ] + env_muts(*sub.se),
        EnvSpec::EnvAppend(n, v, s, sub) => seq![
            EnvMut::Append { name: n@, value: v@, sep: s@ },
        ] + env_muts(*sub.se),
        EnvSpec::EnvRemove(n, sub) => seq![EnvMut::Remove { name: n@ }] + env_muts(*sub.se),
    }
}

pub closed spec fn env_blank(e: EnvSpec) -> bool
    decreases e,
{
    match e {
        EnvSpec::StdEnv => false,
        EnvSpec::BlankEnv => true,
        EnvSpec::EnvAdd(_, _, sub) => env_blank(*sub.se),
        EnvSpec::EnvPrepend(_, _, _, sub) => env_blank(*sub.se),
        EnvSpec::EnvAppend(_, _, _, sub) => env_blank(*sub.se),
        EnvSpec::EnvRemove(_, sub) => env_blank(*sub.se),
    }
}

impl View for EnvSpec {
    type V = EnvModel;

    open spec fn view(&self) -> EnvModel {
        EnvModel { muts: env_muts(*self), blank: env_blank(*self) }
    }
}


impl EnvSpec {
    /// The normalization invariant holds.
    pub open spec fn wf(&self) -> bool {
        normalized(self@.muts)
    }
}

/// The terminators hold no changes, over the inherited or a blank
/// environment, and are normalized.
pub proof fn lemma_terminators()
    ensures
        EnvSpec::StdEnv@ == (EnvModel { muts: seq![], blank: false }),
        EnvSpec::BlankEnv@ == (EnvModel { muts: seq![], blank: true }),
        EnvSpec::StdEnv.wf(),
        EnvSpec::BlankEnv.wf(),
{
    assert(EnvSpec::StdEnv@.muts =~= seq![]);
    assert(EnvSpec::BlankEnv@.muts =~= seq![]);
}

/// Rebuilding the changes of a terminator over `base` gives `base`.
pub proof fn law_set_base_terminator(base: EnvModel)
    ensures
        rebuild(EnvSpec::StdEnv@.muts, base) == base,
        rebuild(EnvSpec::BlankEnv@.muts, base) == base,
{
    lemma_terminators();
}

impl Clone for EnvSpec {
    fn clone(&self) -> (r: EnvSpec)
        ensures
            r == *self,
    {
        self.duplicate()
    }
}

impl Clone for SubEnvSpec {
    fn clone(&self) -> (r: SubEnvSpec)
        ensures
            r == *self,
    {
        SubEnvSpec { se: Box::new(self.se.duplicate()) }
    }
}

impl EnvSpec {
    /// A copy with the same contents.
    pub fn duplicate(&self) -> (r: EnvSpec)
        ensures
            r == *self,
        decreases self,
    {
        match self {
            EnvSpec::StdEnv => EnvSpec::StdEnv,
            EnvSpec::BlankEnv => EnvSpec::BlankEnv,
            EnvSpec::EnvAdd(n, v, SubEnvSpec { se }) => EnvSpec::EnvAdd(
                n.clone(),
                v.clone(),
                SubEnvSpec { se: Box::new(se.duplicate()) },
            ),
            EnvSpec::EnvPrepend(n, v, s, SubEnvSpec { se }) => EnvSpec::EnvPrepend(
                n.clone(),
                v.clone(),
                s.clone(),
                SubEnvSpec { se: Box::new(se.duplicate()) },
            ),
            EnvSpec::EnvAppend(n, v, s, SubEnvSpec { se }) => EnvSpec::EnvAppend(
                n.clone(),
                v.clone(),
                s.clone(),
                SubEnvSpec { se: Box::new(se.duplicate()) },
            ),
            EnvSpec::EnvRemove(n, SubEnvSpec { se }) => EnvSpec::EnvRemove(
                n.clone(),
                SubEnvSpec { se: Box::new(se.duplicate()) },
            ),
        }
    }

    fn elide(&self, what: Elide, var: &String) -> (r: Box<EnvSpec>)
        ensures
            r@.muts == elide_muts(self@.muts, what, var@),
            r@.blank == self@.blank,
        decreases self,
    {
        let ghost ms = self@.muts;
        match self {
            EnvSpec::EnvAdd(n, v, SubEnvSpec { se }) => {
                assert(ms.drop_first() =~= se@.muts);
                if *n == *var {
                    se.elide(what, var)
                } else {
                    Box::new(
                        EnvSpec::EnvAdd(n.clone(), v.clone(), SubEnvSpec { se: se.elide(what, var) }),
                    )
                }
            },
            EnvSpec::EnvRemove(n, SubEnvSpec { se }) => {
                assert(ms.drop_first() =~= se@.muts);
                if *n == *var {
                    se.elide(what, var)
                } else {
                    Box::new(EnvSpec::EnvRemove(n.clone(), SubEnvSpec { se: se.elide(what, var) }))
                }
            },
            EnvSpec::EnvPrepend(n, v, s, SubEnvSpec { se }) => {
                assert(ms.drop_first() =~= se@.muts);
                if *n == *var && what != Elide::ForAppend {
                    se.elide(what, var)
                } else {
                    Box::new(
                        EnvSpec::EnvPrepend(
                            n.clone(),
                            v.clone(),
                            s.clone(),
                            SubEnvSpec { se: se.elide(what, var) },
                        ),
                    )
                }
            },
            EnvSpec::EnvAppend(n, v, s, SubEnvSpec { se }) => {
                assert(ms.drop_first() =~= se@.muts);
                if *n == *var && what != Elide::ForPrepend {
                    se.elide(what, var)
                } else {
                    Box::new(
                        EnvSpec::EnvAppend(
                            n.clone(),
                            v.clone(),
                            s.clone(),
                            SubEnvSpec { se: se.elide(what, var) },
                        ),
                    )
                }
            },
            EnvSpec::StdEnv => Box::new(EnvSpec::StdEnv),
            EnvSpec::BlankEnv => Box::new(EnvSpec::BlankEnv),
        }
    }

    fn join_prepend(&self, var: &String, value: &String, sep: &String) -> (r: Option<EnvSpec>)
        ensures
            r is Some <==> join_prepend_muts(self@.muts, var@, value@, sep@) is Some,
            r is Some ==> r->0@.muts == join_prepend_muts(self@.muts, var@, value@, sep@)->0
                && r->0@.blank == self@.blank,
        decreases self,
    {
        let ghost ms = self@.muts;
        match self {
            EnvSpec::EnvAdd(n, v, SubEnvSpec { se }) => {
                assert(ms.drop_first() =~= se@.muts);
                if *n == *var {
                    let r = EnvSpec::EnvAdd(
                        n.clone(),
                        value.clone().concat(sep.as_str()).concat(v.as_str()),
                        SubEnvSpec { se: Box::new(se.duplicate()) },
                    );
                    assert(r@.muts =~= join_prepend_muts(ms, var@, value@, sep@)->0);
                    Some(r)
                } else {
                    match se.join_prepend(var, value, sep) {
                        Some(t) => Some(
                            EnvSpec::EnvAdd(n.clone(), v.clone(), SubEnvSpec { se: Box::new(t) }),
                        ),
                        None => None,
                    }
                }
            },
            EnvSpec::EnvPrepend(n, v, s, SubEnvSpec { se }) => {
                assert(ms.drop_first() =~= se@.muts);
                if *n == *var {
                    let r = EnvSpec::EnvPrepend(
                        n.clone(),
                        value.clone().concat(sep.as_str()).concat(v.as_str()),
                        s.clone(),
                        SubEnvSpec { se: Box::new(se.duplicate()) },
                    );
                    assert(r@.muts =~= join_prepend_muts(ms, var@, value@, sep@)->0);
                    Some(r)
                } else {
                    match se.join_prepend(var, value, sep) {
                        Some(t) => Some(
                            EnvSpec::EnvPrepend(
                                n.clone(),
                                v.clone(),
                                s.clone(),
                                SubEnvSpec { se: Box::new(t) },
                            ),
                        ),
                        None => None,
                    }
                }
            },
            EnvSpec::EnvAppend(n, v, s, SubEnvSpec { se }) => {
                assert(ms.drop_first() =~= se@.muts);
                match se.join_prepend(var, value, sep) {
                    Some(t) => Some(
                        EnvSpec::EnvAppend(n.clone(), v.clone(), s.clone(), SubEnvSpec { se: Box::new(t) }),
                    ),
                    None => None,
                }
            },
            EnvSpec::EnvRemove(n, SubEnvSpec { se }) => {
                assert(ms.drop_first() =~= se@.muts);
                match se.join_prepend(var, value, sep) {
                    Some(t) => Some(EnvSpec::EnvRemove(n.clone(), SubEnvSpec { se: Box::new(t) })),
                    None => None,
                }
            },
            EnvSpec::StdEnv => None,
            EnvSpec::BlankEnv => None,
        }
    }

    fn join_append(&self, var: &String, value: &String, sep: &String) -> (r: Option<EnvSpec>)
        ensures
            r is Some <==> join_append_muts(self@.muts, var@, value@, sep@) is Some,
            r is Some ==> r->0@.muts == join_append_muts(self@.muts, var@, value@, sep@)->0
                && r->0@.blank == self@.blank,
        decreases self,
    {
        let ghost ms = self@.muts;
        match self {
            EnvSpec::EnvAdd(n, v, SubEnvSpec { se }) => {
                assert(ms.drop_first() =~= se@.muts);
                if *n == *var {
                    let r = EnvSpec::EnvAdd(
                        n.clone(),
                        v.clone().concat(sep.as_str()).concat(value.as_str()),
                        SubEnvSpec { se: Box::new(se.duplicate()) },
                    );
                    assert(r@.muts =~= join_append_muts(ms, var@, value@, sep@)->0);
                    Some(r)
                } else {
                    match se.join_append(var, value, sep) {
                        Some(t) => Some(
                            EnvSpec::EnvAdd(n.clone(), v.clone(), SubEnvSpec { se: Box::new(t) }),
                        ),
                        None => None,
                    }
                }
            },
            EnvSpec::EnvAppend(n, v, s, SubEnvSpec { se }) => {
                assert(ms.drop_first() =~= se@.muts);
                if *n == *var {
                    let r = EnvSpec::EnvAppend(
                        n.clone(),
                        v.clone().concat(sep.as_str()).concat(value.as_str()),
                        s.clone(),
                        SubEnvSpec { se: Box::new(se.duplicate()) },
                    );
                    assert(r@.muts =~= join_append_muts(ms, var@, value@, sep@)->0);
                    Some(r)
                } else {
                    match se.join_append(var, value, sep) {
                        Some(t) => Some(
                            EnvSpec::EnvAppend(
                                n.clone(),
                                v.clone(),
                                s.clone(),
                                SubEnvSpec { se: Box::new(t) },
                            ),
                        ),
                        None => None,
                    }
                }
            },
            EnvSpec::EnvPrepend(n, v, s, SubEnvSpec { se }) => {
                assert(ms.drop_first() =~= se@.muts);
                match se.join_append(var, value, sep) {
                    Some(t) => Some(
                        EnvSpec::EnvPrepend(n.clone(), v.clone(), s.clone(), SubEnvSpec { se: Box::new(t) }),
                    ),
                    None => None,
                }
            },
            EnvSpec::EnvRemove(n, SubEnvSpec { se }) => {
                assert(ms.drop_first() =~= se@.muts);
                match se.join_append(var, value, sep) {
                    Some(t) => Some(EnvSpec::EnvRemove(n.clone(), SubEnvSpec { se: Box::new(t) })),
                    None => None,
                }
            },
            EnvSpec::StdEnv => None,
            EnvSpec::BlankEnv => None,
        }
    }

    /// Sets the variable to the value, replacing any earlier setting of it,
    /// whether made by an earlier change or inherited.
    pub fn add(&self, var_name: &str, var_value: &str) -> (r: EnvSpec)
        ensures
            r@ == add_model(self@, var_name@, var_value@),
            self.wf() ==> r.wf(),
    {
        proof {
            if self.wf() {
                lemma_apply_normalized(self@, EnvMut::Add { name: var_name@, value: var_value@ });
            }
        }
        let vname = var_name.to_owned();
        let sub = self.elide(Elide::All, &vname);
        let r = EnvSpec::EnvAdd(vname, var_value.to_owned(), SubEnvSpec { se: sub });
        assert(r@.muts =~= add_model(self@, var_name@, var_value@).muts);
        r
    }

    /// Removes the variable, whether inherited or set by an earlier change; a
    /// variable that does not exist stays absent.
    pub fn rmv(&self, var_name: &str) -> (r: EnvSpec)
        ensures
            r@ == rmv_model(self@, var_name@),
            self.wf() ==> r.wf(),
    {
        proof {
            if self.wf() {
                lemma_apply_normalized(self@, EnvMut::Remove { name: var_name@ });
            }
        }
        let vname = var_name.to_owned();
        let sub = self.elide(Elide::All, &vname);
        let r = EnvSpec::EnvRemove(vname, SubEnvSpec { se: sub });
        assert(r@.muts =~= rmv_model(self@, var_name@).muts);
        r
    }

    /// Prepends the value, followed by the separator, to the variable; a
    /// variable that does not exist yet is set to the value alone.
    pub fn prepend(&self, var: &str, value: &str, sep: &str) -> (r: EnvSpec)
        ensures
            r@ == prepend_model(self@, var@, value@, sep@),
            self.wf() ==> r.wf(),
    {
        proof {
            if self.wf() {
                lemma_apply_normalized(self@, EnvMut::Prepend { name: var@, value: value@, sep: sep@ });
            }
        }
        let vname = var.to_owned();
        let val = value.to_owned();
        let s = sep.to_owned();
        match self.join_prepend(&vname, &val, &s) {
            None => {
                let sub = self.elide(Elide::ForPrepend, &vname);
                let r = EnvSpec::EnvPrepend(vname, val, s, SubEnvSpec { se: sub });
                assert(r@.muts =~= prepend_model(self@, var@, value@, sep@).muts);
                r
            },
            Some(e) => e,
        }
    }

    /// Appends the separator and the value to the variable; a variable that
    /// does not exist yet is set to the value alone.
    pub fn append(&self, var: &str, value: &str, sep: &str) -> (r: EnvSpec)
        ensures
            r@ == append_model(self@, var@, value@, sep@),
            self.wf() ==> r.wf(),
    {
        proof {
            if self.wf() {
                lemma_apply_normalized(self@, EnvMut::Append { name: var@, value: value@, sep: sep@ });
            }
        }
        let vname = var.to_owned();
        let val = value.to_owned();
        let s = sep.to_owned();
        match self.join_append(&vname, &val, &s) {
            None => {
                let sub = self.elide(Elide::ForAppend, &vname);
                let r = EnvSpec::EnvAppend(vname, val, s, SubEnvSpec { se: sub });
                assert(r@.muts =~= append_model(self@, var@, value@, sep@).muts);
                r
            },
            Some(e) => e,
        }
    }

    /// Rebuilds these changes over `base` in place of the inherited or blank
    /// environment that they started from.
    pub fn set_base(&self, base: &EnvSpec) -> (r: EnvSpec)
        ensures
            r@ == rebuild(self@.muts, base@),
            base.wf() ==> r.wf(),
        decreases self,
    {
        let ghost ms = self@.muts;
        match self {
            EnvSpec::StdEnv => base.duplicate(),
            EnvSpec::BlankEnv => base.duplicate(),
            EnvSpec::EnvAdd(n, v, SubEnvSpec { se }) => {
                assert(ms.drop_first() =~= se@.muts);
                se.set_base(base).add(n.as_str(), v.as_str())
            },
            EnvSpec::EnvRemove(n, SubEnvSpec { se }) => {
                assert(ms.drop_first() =~= se@.muts);
                se.set_base(base).rmv(n.as_str())
            },
            EnvSpec::EnvPrepend(n, v, s, SubEnvSpec { se }) => {
                assert(ms.drop_first() =~= se@.muts);
                se.set_base(base).prepend(n.as_str(), v.as_str(), s.as_str())
            },
            EnvSpec::EnvAppend(n, v, s, SubEnvSpec { se }) => {
                assert(ms.drop_first() =~= se@.muts);
                se.set_base(base).append(n.as_str(), v.as_str(), s.as_str())
            },
        }
    }
}

/// One change, in the form in which an executor applies it.
#[derive(Clone, Debug, PartialEq)]
pub enum EnvStep {
    Assign(String, String),
    Unset(String),
    /// The variable, the value and the separator.
    Prepend(String, String, String),
    /// The variable, the value and the separator.
    Append(String, String, String),
}

impl View for EnvStep {
    type V = EnvMut;

    open spec fn view(&self) -> EnvMut {
        match self {
            EnvStep::Assign(n, v) => EnvMut::Add { name: n@, value: v@ },
            EnvStep::Unset(n) => EnvMut::Remove { name: n@ },
            EnvStep::Prepend(n, v, s) => EnvMut::Prepend { name: n@, value: v@, sep: s@ },
            EnvStep::Append(n, v, s) => EnvMut::Append { name: n@, value: v@, sep: s@ },
        }
    }
}

/// The value of a variable after the change, given its value before (none
/// when it is not set).  A prepend or append to an unset variable sets it to
/// the value alone.
pub open spec fn changed_value(c: EnvMut, current: Option<Seq<char>>) -> Option<Seq<char>> {
    match c {
        EnvMut::Add { value, .. } => Some(value),
        EnvMut::Remove { .. } => None,
        EnvMut::Prepend { value, sep, .. } => match current {
            Some(cur) => Some(value + sep + cur),
            None => Some(value),
        },
        EnvMut::Append { value, sep, .. } => match current {
            Some(cur) => Some(cur + sep + value),
            None => Some(value),
        },
    }
}

impl EnvStep {
    /// The variable that the step changes.
    pub fn var_name(&self) -> (r: &String)
        ensures
            r@ == self@.var(),
    {
        match self {
            EnvStep::Assign(n, _) => n,
            EnvStep::Unset(n) => n,
            EnvStep::Prepend(n, _, _) => n,
            EnvStep::Append(n, _, _) => n,
        }
    }

    /// The variable's value after this step, given its value before.
    pub fn value_after(&self, current: Option<&String>) -> (r: Option<String>)
        ensures
            opt_text(r) == changed_value(
                self@,
                match current {
                    Some(c) => Some(c@),
                    None => None,
                },
            ),
    {
        match self {
            EnvStep::Assign(_, v) => Some(v.clone()),
            EnvStep::Unset(_) => None,
            EnvStep::Prepend(_, v, s) => match current {
                Some(cur) => Some(v.clone().concat(s.as_str()).concat(cur.as_str())),
                None => Some(v.clone()),
            },
            EnvStep::Append(_, v, s) => match current {
                Some(cur) => Some(cur.clone().concat(s.as_str()).concat(v.as_str())),
                None => Some(v.clone()),
            },
        }
    }
}

pub open spec fn opt_text(o: Option<String>) -> Option<Seq<char>> {
    match o {
        Some(s) => Some(s@),
        None => None,
    }
}

impl EnvSpec {
    /// Whether the environment starts empty, and the changes in the order in
    /// which they apply: innermost first, so that the outermost wins.
    pub fn steps(&self) -> (r: (bool, Vec<EnvStep>))
        ensures
            r.0 == self@.blank,
            r.1@.len() == self@.muts.len(),
            forall|i: int|
                0 <= i < r.1@.len() ==> (#[trigger] r.1@[i])@ == self@.muts[self@.muts.len() - 1 - i],
        decreases self,
    {
        let ghost ms = self@.muts;
        match self {
            EnvSpec::StdEnv => (false, Vec::new()),
            EnvSpec::BlankEnv => (true, Vec::new()),
            EnvSpec::EnvAdd(n, v, SubEnvSpec { se }) => {
                assert(ms.drop_first() =~= se@.muts);
                let (b, mut v2) = se.steps();
                v2.push(EnvStep::Assign(n.clone(), v.clone()));
                (b, v2)
            },
            EnvSpec::EnvRemove(n, SubEnvSpec { se }) => {
                assert(ms.drop_first() =~= se@.muts);
                let (b, mut v2) = se.steps();
                v2.push(EnvStep::Unset(n.clone()));
                (b, v2)
            },
            EnvSpec::EnvPrepend(n, v, s, SubEnvSpec { se }) => {
                assert(ms.drop_first() =~= se@.muts);
                let (b, mut v2) = se.steps();
                v2.push(EnvStep::Prepend(n.clone(), v.clone(), s.clone()));
                (b, v2)
            },
            EnvSpec::EnvAppend(n, v, s, SubEnvSpec { se }) => {
                assert(ms.drop_first() =~= se@.muts);
                let (b, mut v2) = se.steps();
                v2.push(EnvStep::Append(n.clone(), v.clone(), s.clone()));
                (b, v2)
            },
        }
    }
}

/// The value of a variable in a list of variables: the last entry with its
/// name, if any.
pub open spec fn lookup(v: Seq<(String, String)>, n: Seq<char>) -> Option<Seq<char>>
    decreases v.len(),
{
    if v.len() == 0 {
        None
    } else if v.last().0@ == n {
        Some(v.last().1@)
    } else {
        lookup(v.drop_last(), n)
    }
}

/// The value of variable `n` once the changes `ms` (outermost first) are
/// applied, innermost first, to the value `start`.
pub open spec fn applied(ms: Seq<EnvMut>, n: Seq<char>, start: Option<Seq<char>>) -> Option<Seq<char>>
    decreases ms.len(),
{
    if ms.len() == 0 {
        start
    } else if ms[0].var() == n {
        changed_value(ms[0], applied(ms.drop_first(), n, start))
    } else {
        applied(ms.drop_first(), n, start)
    }
}

/// The value of the variable in the list of variables.
pub fn lookup_value(vars: &Vec<(String, String)>, name: &String) -> (r: Option<String>)
    ensures
        opt_text(r) == lookup(vars@, name@),
{
    let mut found: Option<String> = None;
    let mut i: usize = 0;
    while i < vars.len()
        invariant
            i <= vars.len(),
            opt_text(found) == lookup(vars@.subrange(0, i as int), name@),
        decreases vars.len() - i,
    {
        proof {
            assert(vars@.subrange(0, i + 1 as int).drop_last() =~= vars@.subrange(0, i as int));
        }
        if vars[i].0 == *name {
            found = Some(vars[i].1.clone());
        }
        i = i + 1;
    }
    assert(vars@.subrange(0, i as int) =~= vars@);
    found
}

impl EnvStep {
    /// Applies the step to the variables: the variable it names takes its new
    /// value (or is removed), the others keep theirs.
    pub fn apply(&self, vars: &mut Vec<(String, String)>)
        ensures
            lookup(final(vars)@, self@.var()) == changed_value(self@, lookup(old(vars)@, self@.var())),
            forall|n: Seq<char>| n != self@.var() ==> #[trigger] lookup(final(vars)@, n) == lookup(old(vars)@, n),
    {
        let name = self.var_name();
        let cur = lookup_value(vars, name);
        let newv = match &cur {
            Some(c) => self.value_after(Some(c)),
            None => self.value_after(None),
        };
        let ghost v0 = vars@;
        let mut kept: Vec<(String, String)> = Vec::new();
        let mut i: usize = 0;
        while i < vars.len()
            invariant
                i <= vars.len(),
                vars@ == v0,
                lookup(kept@, name@) == None::<Seq<char>>,
                forall|n: Seq<char>|
                    n != name@ ==> #[trigger] lookup(kept@, n) == lookup(v0.subrange(0, i as int), n),
            decreases vars.len() - i,
        {
            let ghost k0 = kept@;
            proof {
                assert(v0.subrange(0, i + 1 as int).drop_last() =~= v0.subrange(0, i as int));
            }
            let ghost e = v0[i as int];
            if vars[i].0 != *name {
                kept.push((vars[i].0.clone(), vars[i].1.clone()));
                proof {
                    assert(kept@.drop_last() =~= k0);
                    assert(kept@.last().0@ == e.0@ && kept@.last().1@ == e.1@);
                }
            }
            proof {
                let sub = v0.subrange(0, i + 1 as int);
                assert(sub.last() == e);
                assert forall|n: Seq<char>| n != name@ implies #[trigger] lookup(kept@, n) == lookup(sub, n) by {
                    assert(lookup(k0, n) == lookup(v0.subrange(0, i as int), n));
                }
            }
            i = i + 1;
        }
        assert(v0.subrange(0, i as int) =~= v0);
        match newv {
            Some(v) => {
                let ghost k0 = kept@;
                kept.push((name.clone(), v));
                proof {
                    assert(kept@.drop_last() =~= k0);
                    assert forall|n: Seq<char>| n != name@ implies #[trigger] lookup(kept@, n) == lookup(v0, n) by {
                        assert(lookup(k0, n) == lookup(v0, n));
                    }
                }
            },
            None => {},
        }
        *vars = kept;
    }
}

impl EnvSpec {
    /// The variables of a subprocess whose parent has the variables
    /// `parent`: none or the parent's to start from, then each change applied,
    /// innermost first, so that the outermost wins.
    pub fn realize(&self, parent: &Vec<(String, String)>) -> (r: Vec<(String, String)>)
        ensures
            forall|n: Seq<char>|
                #[trigger] lookup(r@, n) == applied(
                    self@.muts,
                    n,
                    if self@.blank {
                        None
                    } else {
                        lookup(parent@, n)
                    },
                ),
    {
        let (blank, steps) = self.steps();
        let ghost ms = self@.muts;
        let ghost len = ms.len() as int;
        let mut vars: Vec<(String, String)> = if blank {
            Vec::new()
        } else {
            let mut c: Vec<(String, String)> = Vec::new();
            let mut j: usize = 0;
            while j < parent.len()
                invariant
                    j <= parent.len(),
                    c@.len() == j,
                    forall|k: int| 0 <= k < j ==> (#[trigger] c@[k]).0@ == parent@[k].0@ && c@[k].1@ == parent@[k].1@,
                decreases parent.len() - j,
            {
                c.push((parent[j].0.clone(), parent[j].1.clone()));
                j = j + 1;
            }
            proof {
                lemma_lookup_same(c@, parent@);
            }
            c
        };
        let ghost start = vars@;
        let mut i: usize = 0;
        while i < steps.len()
            invariant
                i <= steps@.len(),
                steps@.len() == len,
                len == ms.len(),
                forall|k: int| 0 <= k < steps@.len() ==> (#[trigger] steps@[k])@ == ms[len - 1 - k],
                forall|n: Seq<char>|
                    #[trigger] lookup(start, n) == (if blank {
                        None
                    } else {
                        lookup(parent@, n)
                    }),
                forall|n: Seq<char>|
                    #[trigger] lookup(vars@, n) == applied(ms.subrange(len - i, len), n, lookup(start, n)),
            decreases steps@.len() - i,
        {
            let ghost before = vars@;
            steps[i].apply(&mut vars);
            proof {
                let sub = ms.subrange(len - 1 - i, len);
                assert(sub.drop_first() =~= ms.subrange(len - i, len));
                assert(sub[0] == steps@[i as int]@);
                assert forall|n: Seq<char>| #[trigger] lookup(vars@, n) == applied(sub, n, lookup(start, n)) by {
                    assert(lookup(before, n) == applied(ms.subrange(len - i, len), n, lookup(start, n)));
                }
            }
            i = i + 1;
        }
        assert(ms.subrange(len - i, len) =~= ms);
        vars
    }
}

/// Lists with the same names and values, entry by entry, give every variable
/// the same value.
proof fn lemma_lookup_same(a: Seq<(String, String)>, b: Seq<(String, String)>)
    requires
        a.len() == b.len(),
        forall|k: int| 0 <= k < a.len() ==> (#[trigger] a[k]).0@ == b[k].0@ && a[k].1@ == b[k].1@,
    ensures
        forall|n: Seq<char>| #[trigger] lookup(a, n) == lookup(b, n),
    decreases a.len(),
{
    if a.len() > 0 {
        let (da, db) = (a.drop_last(), b.drop_last());
        assert forall|k: int| 0 <= k < da.len() implies (#[trigger] da[k]).0@ == db[k].0@ && da[k].1@ == db[k].1@ by {
            assert(da[k] == a[k] && db[k] == b[k]);
        }
        lemma_lookup_same(da, db);
        let l = a.len() - 1;
        assert(a[l].0@ == b[l].0@ && a[l].1@ == b[l].1@);
        assert forall|n: Seq<char>| #[trigger] lookup(a, n) == lookup(b, n) by {
            assert(lookup(da, n) == lookup(db, n));
            assert(a.last() == a[l] && b.last() == b[l]);
        }
    }
}

} // verus!
