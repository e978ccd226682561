//! `{name}` placeholders in localized text templates.
//!
//! A template is scanned left to right. `{{` stands for a literal `{`. A `{`
//! with no `}` after it, and every `}` that does not close a placeholder, is
//! kept as written. `{name}` whose name is not an identifier (ASCII letter or
//! `_`, then ASCII letters, digits or `_`) is kept as written. An identifier
//! placeholder is replaced by the value of the argument with that name, which
//! must exist; every argument must be used, and no name may be given twice.

use vstd::prelude::*;
use vstd::string::StrSliceExecFns;
use vstd::string::StringExecFns;

use crate::text::{
    chars_equal_at, chars_of, first_index_of, is_ascii_alnum, is_ascii_alpha, lemma_first_index_of,
    push_char,
};

verus! {

/// Why a template could not be filled in.
#[derive(Debug, PartialEq, Eq)]
pub enum TemplateError {
    DuplicateArgument { name: String },
    MissingArgument { name: String },
    UnusedArgument { name: String },
}

/// What filling in a template yields, over character sequences.
pub enum TemplateOutcome {
    Rendered(Seq<char>),
    DuplicateArgument(Seq<char>),
    MissingArgument(Seq<char>),
    UnusedArgument(Seq<char>),
}

/// The outcome that a result of [`replace_placeholders`] stands for.
pub open spec fn outcome_of(r: Result<String, TemplateError>) -> TemplateOutcome {
    match r {
        Ok(s) => TemplateOutcome::Rendered(s@),
        Err(TemplateError::DuplicateArgument { name }) => TemplateOutcome::DuplicateArgument(name@),
        Err(TemplateError::MissingArgument { name }) => TemplateOutcome::MissingArgument(name@),
        Err(TemplateError::UnusedArgument { name }) => TemplateOutcome::UnusedArgument(name@),
    }
}

/// The arguments as (name, value) character sequences.
pub open spec fn arg_views(args: Seq<(&str, &str)>) -> Seq<(Seq<char>, Seq<char>)> {
    args.map_values(|a: (&str, &str)| (a.0@, a.1@))
}

/// A placeholder name: an ASCII letter or `_`, then ASCII letters, digits or `_`.
pub open spec fn is_placeholder_name(name: Seq<char>) -> bool {
    &&& name.len() > 0
    &&& (name[0] == '_' || is_ascii_alpha(name[0]))
    &&& forall|i: int| 1 <= i < name.len() ==> (name[i] == '_' || #[trigger] is_ascii_alnum(name[i]))
}

/// The index of the first argument named `name`.
pub open spec fn arg_position(args: Seq<(Seq<char>, Seq<char>)>, name: Seq<char>) -> Option<int>
    decreases args.len(),
{
    if args.len() == 0 {
        None
    } else if args[0].0 == name {
        Some(0)
    } else {
        match arg_position(args.drop_first(), name) {
            Some(j) => Some(j + 1),
            None => None,
        }
    }
}

/// Puts `p` in front of a scanned output and adds `u` to the argument indices it used.
pub open spec fn prepend(
    p: Seq<char>,
    u: Set<int>,
    r: Result<(Seq<char>, Set<int>), Seq<char>>,
) -> Result<(Seq<char>, Set<int>), Seq<char>> {
    match r {
        Ok((o, us)) => Ok((p + o, u.union(us))),
        Err(n) => Err(n),
    }
}

/// Scans `t`: on success the text it renders to and the indices of the arguments it
/// used; on failure the first placeholder name that no argument has.
pub open spec fn scan(t: Seq<char>, args: Seq<(Seq<char>, Seq<char>)>) -> Result<
    (Seq<char>, Set<int>),
    Seq<char>,
>
    decreases t.len(),
{
    if t.len() == 0 {
        Ok((Seq::empty(), Set::empty()))
    } else if t[0] != '{' {
        prepend(seq![t[0]], Set::empty(), scan(t.drop_first(), args))
    } else if t.len() > 1 && t[1] == '{' {
        prepend(seq!['{'], Set::empty(), scan(t.skip(2), args))
    } else {
        let after = t.drop_first();
        match first_index_of(after, '}') {
            None => Ok((t, Set::empty())),
            Some(e) => {
                proof {
                    lemma_first_index_of(after, '}');
                }
                let name = after.take(e);
                let tail = after.skip(e + 1);
                if !is_placeholder_name(name) {
                    prepend(seq!['{'] + name + seq!['}'], Set::empty(), scan(tail, args))
                } else {
                    match arg_position(args, name) {
                        None => Err(name),
                        Some(k) => prepend(args[k].1, set![k], scan(tail, args)),
                    }
                }
            },
        }
    }
}

/// Whether the argument at `i` has its name again at a later index.
pub open spec fn has_later_duplicate(args: Seq<(Seq<char>, Seq<char>)>, i: int) -> bool {
    exists|j: int| i < j < args.len() && args[j].0 == args[i].0
}

/// The first index from `i` on whose name occurs again later.
pub open spec fn duplicate_from(args: Seq<(Seq<char>, Seq<char>)>, i: int) -> Option<int>
    decreases args.len() - i,
{
    if i < 0 || i >= args.len() {
        None
    } else if has_later_duplicate(args, i) {
        Some(i)
    } else {
        duplicate_from(args, i + 1)
    }
}

/// The first index from `i` on that is not in `used`.
pub open spec fn unused_from(n: int, used: Set<int>, i: int) -> Option<int>
    decreases n - i,
{
    if i < 0 || i >= n {
        None
    } else if !used.contains(i) {
        Some(i)
    } else {
        unused_from(n, used, i + 1)
    }
}

/// A message text as it is shown: the text as it stands when the message takes no
/// arguments, else the text filled in with `args`.
pub open spec fn message_outcome(t: Seq<char>, args: Seq<(Seq<char>, Seq<char>)>) -> TemplateOutcome {
    if args.len() == 0 {
        TemplateOutcome::Rendered(t)
    } else {
        template_outcome(t, args)
    }
}

/// What filling in `t` with `args` yields.
pub open spec fn template_outcome(t: Seq<char>, args: Seq<(Seq<char>, Seq<char>)>) -> TemplateOutcome {
    match duplicate_from(args, 0) {
        Some(i) => TemplateOutcome::DuplicateArgument(args[i].0),
        None => match scan(t, args) {
            Err(name) => TemplateOutcome::MissingArgument(name),
            Ok((out, used)) => match unused_from(args.len() as int, used, 0) {
                Some(i) => TemplateOutcome::UnusedArgument(args[i].0),
                None => TemplateOutcome::Rendered(out),
            },
        },
    }
}

proof fn lemma_first_index_of_at(s: Seq<char>, c: char, j: int)
    requires
        0 <= j <= s.len(),
        j < s.len() ==> s[j] == c,
        forall|k: int| 0 <= k < j ==> s[k] != c,
    ensures
        first_index_of(s, c) == (if j < s.len() { Some(j) } else { None::<int> }),
{
    lemma_first_index_of(s, c);
    match first_index_of(s, c) {
        Some(i) => {
            if i < j {
                assert(s[i] != c);
            } else if i > j {
                assert(s[j] != c);
            }
        },
        None => {
            if j < s.len() {
                assert(s[j] != c);
            }
        },
    }
}

proof fn lemma_arg_position(args: Seq<(Seq<char>, Seq<char>)>, name: Seq<char>)
    ensures
        match arg_position(args, name) {
            Some(j) => 0 <= j < args.len() && args[j].0 == name && forall|k: int|
                0 <= k < j ==> args[k].0 != name,
            None => forall|k: int| 0 <= k < args.len() ==> args[k].0 != name,
        },
    decreases args.len(),
{
    if args.len() > 0 && args[0].0 != name {
        lemma_arg_position(args.drop_first(), name);
        assert forall|k: int| 1 <= k < args.len() implies args[k] == args.drop_first()[k - 1] by {}
    }
}

proof fn lemma_arg_position_at(args: Seq<(Seq<char>, Seq<char>)>, name: Seq<char>, j: int)
    requires
        0 <= j <= args.len(),
        j < args.len() ==> args[j].0 == name,
        forall|k: int| 0 <= k < j ==> args[k].0 != name,
    ensures
        arg_position(args, name) == (if j < args.len() { Some(j) } else { None::<int> }),
{
    lemma_arg_position(args, name);
    match arg_position(args, name) {
        Some(i) => {
            if i < j {
                assert(args[i].0 != name);
            } else if i > j {
                assert(args[j].0 != name);
            }
        },
        None => {
            if j < args.len() {
                assert(args[j].0 != name);
            }
        },
    }
}

proof fn lemma_prepend_assoc(
    a: Seq<char>,
    u: Set<int>,
    b: Seq<char>,
    v: Set<int>,
    r: Result<(Seq<char>, Set<int>), Seq<char>>,
)
    ensures
        prepend(a, u, prepend(b, v, r)) == prepend(a + b, u.union(v), r),
{
    match r {
        Ok((o, us)) => {
            assert(a + (b + o) =~= (a + b) + o);
            assert(u.union(v.union(us)) =~= u.union(v).union(us));
        },
        Err(_) => {},
    }
}

/// The set of indices whose flag is set.
pub open spec fn flagged(v: Seq<bool>) -> Set<int> {
    Set::new(|k: int| 0 <= k < v.len() && v[k])
}

fn is_placeholder_name_at(t: &Vec<char>, lo: usize, hi: usize) -> (b: bool)
    requires
        lo <= hi <= t@.len(),
    ensures
        b == is_placeholder_name(t@.subrange(lo as int, hi as int)),
{
    let ghost name = t@.subrange(lo as int, hi as int);
    if lo == hi {
        return false;
    }
    let first = t[lo];
    if !(first == '_' || crate::text::ascii_alpha(first)) {
        return false;
    }
    let mut i = lo + 1;
    while i < hi
        invariant
            lo < i <= hi <= t@.len(),
            name == t@.subrange(lo as int, hi as int),
            forall|k: int| 1 <= k < i - lo ==> (name[k] == '_' || #[trigger] is_ascii_alnum(name[k])),
        decreases hi - i,
    {
        let c = t[i];
        if !(c == '_' || crate::text::ascii_alnum(c)) {
            assert(name[i - lo] == c);
            return false;
        }
        i = i + 1;
    }
    true
}

/// Fills the `{name}` placeholders of `template` with the values in `args`.
pub fn replace_placeholders(template: &str, args: &[(&str, &str)]) -> (r: Result<String, TemplateError>)
    ensures
        outcome_of(r) == template_outcome(template@, arg_views(args@)),
{
    let ghost a = arg_views(args@);
    let n_args = args.len();
    let mut names: Vec<Vec<char>> = Vec::new();
    let mut idx: usize = 0;
    while idx < n_args
        invariant
            n_args == args@.len(),
            a == arg_views(args@),
            a.len() == n_args,
            idx <= n_args,
            names@.len() == idx,
            forall|k: int| 0 <= k < idx ==> (#[trigger] names@[k])@ == a[k].0,
        decreases n_args - idx,
    {
        let name = chars_of(args[idx].0);
        names.push(name);
        idx = idx + 1;
    }

    // No argument name may be given twice.
    let mut index: usize = 0;
    while index < n_args
        invariant
            n_args == args@.len(),
            a == arg_views(args@),
            a.len() == n_args,
            names@.len() == n_args,
            forall|k: int| 0 <= k < n_args ==> (#[trigger] names@[k])@ == a[k].0,
            index <= n_args,
            duplicate_from(a, 0) == duplicate_from(a, index as int),
        decreases n_args - index,
    {
        let mut other = index + 1;
        while other < n_args
            invariant
                n_args == args@.len(),
                a.len() == n_args,
                names@.len() == n_args,
                forall|k: int| 0 <= k < n_args ==> (#[trigger] names@[k])@ == a[k].0,
                index < other <= n_args,
                a == arg_views(args@),
                n_args == args@.len(),
                duplicate_from(a, 0) == duplicate_from(a, index as int),
                forall|j: int| index < j < other ==> a[j].0 != a[index as int].0,
            decreases n_args - other,
        {
            let len = names[index].len();
            if names[other].len() == len && chars_equal_at(&names[other], &names[index], 0, len) {
                assert(names@[other as int]@.subrange(0, len as int) =~= names@[other as int]@);
                assert(has_later_duplicate(a, index as int));
                assert(duplicate_from(a, index as int) == Some(index as int));
                assert(a[index as int].0 == args@[index as int].0@);
                return Err(TemplateError::DuplicateArgument { name: args[index].0.to_owned() });
            }
            proof {
                if names@[other as int]@.len() == len {
                    assert(names@[other as int]@.subrange(0, len as int) =~= names@[other as int]@);
                }
            }
            other = other + 1;
        }
        assert(!has_later_duplicate(a, index as int));
        index = index + 1;
    }
    assert(duplicate_from(a, n_args as int) == None::<int>);

    let t = chars_of(template);
    let n = t.len();
    let mut out = String::new();
    let mut used: Vec<bool> = Vec::new();
    let mut u: usize = 0;
    while u < n_args
        invariant
            u <= n_args,
            used@.len() == u,
            forall|k: int| 0 <= k < u ==> !used@[k],
        decreases n_args - u,
    {
        used.push(false);
        u = u + 1;
    }
    assert(flagged(used@) =~= Set::<int>::empty());
    assert(out@ =~= Seq::<char>::empty());
    assert(t@.skip(0) =~= t@);
    proof {
        lemma_prepend_assoc(Seq::empty(), Set::empty(), Seq::empty(), Set::empty(), scan(t@, a));
        assert(prepend(Seq::empty(), Set::empty(), scan(t@, a)) == scan(t@, a)) by {
            match scan(t@, a) {
                Ok((o, us)) => {
                    assert(Seq::<char>::empty() + o =~= o);
                    assert(Set::<int>::empty().union(us) =~= us);
                },
                Err(_) => {},
            }
        }
    }

    let mut i: usize = 0;
    while i < n
        invariant
            n == t@.len(),
            t@ == template@,
            i <= n,
            n_args == args@.len(),
            a == arg_views(args@),
            a.len() == n_args,
            names@.len() == n_args,
            forall|k: int| 0 <= k < n_args ==> (#[trigger] names@[k])@ == a[k].0,
            used@.len() == n_args,
            duplicate_from(a, 0) == None::<int>,
            scan(t@, a) == prepend(out@, flagged(used@), scan(t@.skip(i as int), a)),
        decreases n - i,
    {
        let ghost rest = t@.skip(i as int);
        let c = t[i];
        if c != '{' {
            let ghost before = out@;
            proof {
                assert(rest.drop_first() =~= t@.skip(i + 1));
                assert(rest[0] == c);
                assert(scan(rest, a) == prepend(seq![c], Set::empty(), scan(t@.skip(i + 1), a)));
                lemma_prepend_assoc(out@, flagged(used@), seq![c], Set::empty(), scan(t@.skip(i + 1), a));
                assert(flagged(used@).union(Set::empty()) =~= flagged(used@));
            }
            push_char(&mut out, c);
            assert(out@ =~= before + seq![c]);
            i = i + 1;
            assert(scan(t@, a) == prepend(out@, flagged(used@), scan(t@.skip(i as int), a)));
        } else if i + 1 < n && t[i + 1] == '{' {
            let ghost before = out@;
            proof {
                assert(rest.skip(2) =~= t@.skip(i + 2));
                assert(rest[0] == '{' && rest[1] == '{');
                assert(scan(rest, a) == prepend(seq!['{'], Set::empty(), scan(t@.skip(i + 2), a)));
                lemma_prepend_assoc(out@, flagged(used@), seq!['{'], Set::empty(), scan(t@.skip(i + 2), a));
                assert(flagged(used@).union(Set::empty()) =~= flagged(used@));
            }
            push_char(&mut out, '{');
            assert(out@ =~= before + seq!['{']);
            i = i + 2;
            assert(scan(t@, a) == prepend(out@, flagged(used@), scan(t@.skip(i as int), a)));
        } else {
            let ghost after = rest.drop_first();
            let mut j = i + 1;
            while j < n && t[j] != '}'
                invariant
                    i < j <= n,
                    n == t@.len(),
                    forall|k: int| i < k < j ==> t@[k] != '}',
                decreases n - j,
            {
                j = j + 1;
            }
            proof {
                assert(after =~= t@.skip(i + 1));
                assert forall|k: int| 0 <= k < j - (i + 1) implies after[k] != '}' by {
                    assert(after[k] == t@[k + i + 1]);
                }
                lemma_first_index_of_at(after, '}', j - (i + 1));
            }
            if j == n {
                // No closing brace: the rest of the template is kept as written.
                let ghost before = out@;
                let tail_text = template.substring_char(i, n);
                out.append(tail_text);
                proof {
                    assert(tail_text@ =~= rest);
                    assert(flagged(used@).union(Set::empty()) =~= flagged(used@));
                }
                i = n;
                assert(scan(t@, a) == Ok::<(Seq<char>, Set<int>), Seq<char>>((out@, flagged(used@))));
                return ensure_all_args_used(args, &used, out, Ghost(scan(t@, a)));
            }
            let ghost e = j - (i + 1);
            let ghost name = after.take(e);
            let ghost tail = after.skip(e + 1);
            proof {
                assert(name =~= t@.subrange(i + 1, j as int));
                assert(tail =~= t@.skip(j + 1));
            }
            if !is_placeholder_name_at(&t, i + 1, j) {
                let ghost before = out@;
                let name_text = template.substring_char(i + 1, j);
                push_char(&mut out, '{');
                out.append(name_text);
                push_char(&mut out, '}');
                proof {
                    assert(name_text@ =~= name);
                    assert(out@ =~= before + (seq!['{'] + name + seq!['}']));
                    lemma_prepend_assoc(
                        before,
                        flagged(used@),
                        seq!['{'] + name + seq!['}'],
                        Set::empty(),
                        scan(t@.skip(j + 1), a),
                    );
                    assert(flagged(used@).union(Set::empty()) =~= flagged(used@));
                }
                i = j + 1;
                assert(scan(t@, a) == prepend(out@, flagged(used@), scan(t@.skip(i as int), a)));
            } else {
                // Find the argument with this name.
                let k = find_name(&names, &t, i + 1, j);
                proof {
                    assert forall|q: int| 0 <= q < k implies a[q].0 != name by {
                        assert(names@[q]@ == a[q].0);
                    }
                    if k < n_args {
                        assert(a[k as int].0 == name);
                    }
                    lemma_arg_position_at(a, name, k as int);
                }
                if k == n_args {
                    let missing = template.substring_char(i + 1, j).to_owned();
                    return Err(TemplateError::MissingArgument { name: missing });
                }
                let ghost before = out@;
                let ghost before_used = flagged(used@);
                out.append(args[k].1);
                used.set(k, true);
                proof {
                    assert(a[k as int].1 == args@[k as int].1@);
                    assert(flagged(used@) =~= before_used.union(set![k as int]));
                    lemma_prepend_assoc(before, before_used, a[k as int].1, set![k as int], scan(t@.skip(j + 1), a));
                }
                i = j + 1;
                assert(scan(t@, a) == prepend(out@, flagged(used@), scan(t@.skip(i as int), a)));
            }
        }
    }
    proof {
        assert(t@.skip(n as int) =~= Seq::<char>::empty());
        assert(out@ + Seq::<char>::empty() =~= out@);
        assert(flagged(used@).union(Set::<int>::empty()) =~= flagged(used@));
    }
    ensure_all_args_used(args, &used, out, Ghost(scan(t@, a)))
}

/// The index of the first of `names` that equals the characters of `t` from `lo` up to `hi`,
/// or the number of names when none does.
fn find_name(names: &Vec<Vec<char>>, t: &Vec<char>, lo: usize, hi: usize) -> (k: usize)
    requires
        lo <= hi <= t@.len(),
    ensures
        k <= names@.len(),
        k < names@.len() ==> names@[k as int]@ == t@.subrange(lo as int, hi as int),
        forall|q: int| 0 <= q < k ==> names@[q]@ != t@.subrange(lo as int, hi as int),
{
    let mut k: usize = 0;
    while k < names.len()
        invariant
            lo <= hi <= t@.len(),
            k <= names@.len(),
            forall|q: int| 0 <= q < k ==> names@[q]@ != t@.subrange(lo as int, hi as int),
        decreases names@.len() - k,
    {
        if chars_equal_at(t, &names[k], lo, hi) {
            return k;
        }
        k = k + 1;
    }
    k
}

fn ensure_all_args_used(
    args: &[(&str, &str)],
    used_args: &Vec<bool>,
    output: String,
    Ghost(scanned): Ghost<Result<(Seq<char>, Set<int>), Seq<char>>>,
) -> (r: Result<String, TemplateError>)
    requires
        used_args@.len() == args@.len(),
        scanned == Ok::<(Seq<char>, Set<int>), Seq<char>>((output@, flagged(used_args@))),
        duplicate_from(arg_views(args@), 0) == None::<int>,
    ensures
        outcome_of(r) == template_outcome_after_scan(arg_views(args@), scanned),
{
    let n = args.len();
    let mut i: usize = 0;
    while i < n
        invariant
            n == args@.len(),
            used_args@.len() == n,
            i <= n,
            unused_from(n as int, flagged(used_args@), 0) == unused_from(n as int, flagged(used_args@), i as int),
            scanned == Ok::<(Seq<char>, Set<int>), Seq<char>>((output@, flagged(used_args@))),
        decreases n - i,
    {
        if !used_args[i] {
            assert(!flagged(used_args@).contains(i as int));
            assert(unused_from(n as int, flagged(used_args@), i as int) == Some(i as int));
            assert(arg_views(args@)[i as int].0 == args@[i as int].0@);
            assert(template_outcome_after_scan(arg_views(args@), scanned)
                == TemplateOutcome::UnusedArgument(arg_views(args@)[i as int].0));
            return Err(TemplateError::UnusedArgument { name: args[i].0.to_owned() });
        }
        assert(flagged(used_args@).contains(i as int));
        i = i + 1;
    }
    Ok(output)
}

/// What filling in yields once scanning has produced `scanned`.
pub open spec fn template_outcome_after_scan(
    args: Seq<(Seq<char>, Seq<char>)>,
    scanned: Result<(Seq<char>, Set<int>), Seq<char>>,
) -> TemplateOutcome {
    match scanned {
        Err(name) => TemplateOutcome::MissingArgument(name),
        Ok((out, used)) => match unused_from(args.len() as int, used, 0) {
            Some(i) => TemplateOutcome::UnusedArgument(args[i].0),
            None => TemplateOutcome::Rendered(out),
        },
    }
}

} // verus!
