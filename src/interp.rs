use vstd::prelude::*;

use crate::text::{is_space, skip_space, space_run, str_eq};

verus! {

/// A list of variables; the first entry for a name is the one that counts.
pub type Vars = Vec<(String, String)>;

/// `i` is the position of the first entry of `vars` named `k`.
pub open spec fn is_first_key(vars: Seq<(String, String)>, k: Seq<char>, i: int) -> bool {
    &&& 0 <= i < vars.len()
    &&& vars[i].0@ == k
    &&& forall|j: int| 0 <= j < i ==> (#[trigger] vars[j]).0@ != k
}

/// The value of the first entry named `k`, if any.
pub open spec fn lookup(vars: Seq<(String, String)>, k: Seq<char>) -> Option<Seq<char>> {
    if exists|i: int| is_first_key(vars, k, i) {
        Some(vars[choose|i: int| is_first_key(vars, k, i)].1@)
    } else {
        None
    }
}

/// The text that replaces a reference to `name`: the scope's value, else the
/// ambient environment's, else nothing.
pub open spec fn resolve_var(
    name: Seq<char>,
    scope: Seq<(String, String)>,
    ambient: Seq<(String, String)>,
) -> Seq<char> {
    match lookup(scope, name) {
        Some(v) => v,
        None => match lookup(ambient, name) {
            Some(v) => v,
            None => Seq::empty(),
        },
    }
}

/// A character allowed in a variable name.
pub open spec fn is_name_char(c: char) -> bool {
    ('a' <= c && c <= 'z') || ('A' <= c && c <= 'Z') || ('0' <= c && c <= '9') || c == '_'
}

/// The position just after the run of name characters that starts at `i`.
pub open spec fn name_run(s: Seq<char>, i: int) -> int
    decreases s.len() - i,
{
    if 0 <= i < s.len() && is_name_char(s[i]) {
        name_run(s, i + 1)
    } else {
        i
    }
}

pub open spec fn opens_at(s: Seq<char>, i: int) -> bool {
    0 <= i && i + 3 <= s.len() && s[i] == '$' && s[i + 1] == '{' && s[i + 2] == '{'
}

pub open spec fn env_prefix_at(s: Seq<char>, i: int) -> bool {
    0 <= i && i + 4 <= s.len() && s[i] == 'e' && s[i + 1] == 'n' && s[i + 2] == 'v' && s[i + 3]
        == '.'
}

pub open spec fn closes_at(s: Seq<char>, i: int) -> bool {
    0 <= i && i + 2 <= s.len() && s[i] == '}' && s[i + 1] == '}'
}

/// A marker `${{ env.NAME }}` starting at `i`, with optional white space
/// inside the braces: the bounds of `NAME` and the position after the marker.
pub open spec fn marker_at(s: Seq<char>, i: int) -> Option<(int, int, int)> {
    let b = space_run(s, i + 3);
    let c = b + 4;
    let d = name_run(s, c);
    let e = space_run(s, d);
    if opens_at(s, i) && env_prefix_at(s, b) && c < d && closes_at(s, e) {
        Some((c, d, e + 2))
    } else {
        None
    }
}

/// `s` from position `i` on, with each marker replaced by its variable's
/// value; markers are taken left to right and do not overlap.
pub open spec fn interp_from(
    s: Seq<char>,
    i: int,
    scope: Seq<(String, String)>,
    ambient: Seq<(String, String)>,
) -> Seq<char>
    decreases s.len() - i,
{
    if i < 0 || i >= s.len() {
        Seq::empty()
    } else {
        match marker_at(s, i) {
            Some((c, d, e)) => if i < e {
                resolve_var(s.subrange(c, d), scope, ambient) + interp_from(s, e, scope, ambient)
            } else {
                Seq::empty()
            },
            None => seq![s[i]] + interp_from(s, i + 1, scope, ambient),
        }
    }
}

/// The whole of `s` interpolated.
pub open spec fn interpolated(
    s: Seq<char>,
    scope: Seq<(String, String)>,
    ambient: Seq<(String, String)>,
) -> Seq<char> {
    interp_from(s, 0, scope, ambient)
}

/// `s` holds a marker at some position.
pub open spec fn has_marker(s: Seq<char>) -> bool {
    exists|i: int| 0 <= i < s.len() && (#[trigger] marker_at(s, i)) is Some
}

proof fn lemma_first_key_unique(vars: Seq<(String, String)>, k: Seq<char>, i: int)
    requires
        is_first_key(vars, k, i),
    ensures
        lookup(vars, k) == Some(vars[i].1@),
{
    let m = choose|m: int| is_first_key(vars, k, m);
    assert(is_first_key(vars, k, m));
    if m < i {
        assert(vars[m].0@ != k);
    } else if i < m {
        assert(vars[i].0@ != k);
    }
}

/// The value of the first entry named `k`.
pub fn lookup_var<'a>(vars: &'a Vars, k: &str) -> (r: Option<&'a String>)
    ensures
        match r {
            Some(v) => lookup(vars@, k@) == Some(v@),
            None => lookup(vars@, k@) is None,
        },
{
    let mut i: usize = 0;
    while i < vars.len()
        invariant
            0 <= i <= vars@.len(),
            forall|j: int| 0 <= j < i ==> (#[trigger] vars@[j]).0@ != k@,
        decreases vars@.len() - i,
    {
        if str_eq(vars[i].0.as_str(), k) {
            proof {
                lemma_first_key_unique(vars@, k@, i as int);
            }
            return Some(&vars[i].1);
        }
        i = i + 1;
    }
    proof {
        if exists|m: int| is_first_key(vars@, k@, m) {
            let m = choose|m: int| is_first_key(vars@, k@, m);
            assert(vars@[m].0@ != k@);
        }
    }
    None
}

fn is_name_char_exec(c: char) -> (r: bool)
    ensures
        r == is_name_char(c),
{
    ('a' <= c && c <= 'z') || ('A' <= c && c <= 'Z') || ('0' <= c && c <= '9') || c == '_'
}

fn skip_name(s: &str, n: usize, i: usize) -> (r: usize)
    requires
        n == s@.len(),
        i <= n,
    ensures
        r as int == name_run(s@, i as int),
        i <= r <= n,
{
    let mut j: usize = i;
    while j < n && is_name_char_exec(s.get_char(j))
        invariant
            n == s@.len(),
            i <= j <= n,
            name_run(s@, i as int) == name_run(s@, j as int),
        decreases n - j,
    {
        j = j + 1;
    }
    j
}

/// The marker, if any, that starts at position `i` of `s`.
pub fn find_marker(s: &str, n: usize, i: usize) -> (r: Option<(usize, usize, usize)>)
    requires
        n == s@.len(),
        i < n,
    ensures
        match r {
            Some((c, d, e)) => marker_at(s@, i as int) == Some((c as int, d as int, e as int))
                && i < c < d < e <= n,
            None => marker_at(s@, i as int) is None,
        },
{
    if !(n - i >= 3 && s.get_char(i) == '$' && s.get_char(i + 1) == '{' && s.get_char(i + 2)
        == '{') {
        return None;
    }
    let b = skip_space(s, n, i + 3);
    if !(n - b >= 4 && s.get_char(b) == 'e' && s.get_char(b + 1) == 'n' && s.get_char(b + 2)
        == 'v' && s.get_char(b + 3) == '.') {
        return None;
    }
    let c = b + 4;
    let d = skip_name(s, n, c);
    if d == c {
        return None;
    }
    let e = skip_space(s, n, d);
    if !(n - e >= 2 && s.get_char(e) == '}' && s.get_char(e + 1) == '}') {
        return None;
    }
    Some((c, d, e + 2))
}

/// Replaces each `${{ env.NAME }}` marker of `command` by the value of
/// `NAME` in `scope`, else in `ambient`, else by nothing. Everything else is
/// kept as it is.
pub fn interpolate(command: &str, scope: &Vars, ambient: &Vars) -> (r: String)
    ensures
        r@ == interpolated(command@, scope@, ambient@),
{
    let n = command.unicode_len();
    let mut out = String::new();
    let mut i: usize = 0;
    while i < n
        invariant
            n == command@.len(),
            i <= n,
            out@ + interp_from(command@, i as int, scope@, ambient@) == interpolated(
                command@,
                scope@,
                ambient@,
            ),
        decreases n - i,
    {
        let ghost before = out@;
        match find_marker(command, n, i) {
            Some((c, d, e)) => {
                let name = command.substring_char(c, d);
                let value: &str = match lookup_var(scope, name) {
                    Some(v) => v.as_str(),
                    None => match lookup_var(ambient, name) {
                        Some(v) => v.as_str(),
                        None => "",
                    },
                };
                proof {
                    reveal_strlit("");
                }
                out.append(value);
                assert(out@ + interp_from(command@, e as int, scope@, ambient@) =~= before
                    + interp_from(command@, i as int, scope@, ambient@));
                i = e;
            },
            None => {
                out.append(command.substring_char(i, i + 1));
                assert(out@ + interp_from(command@, i + 1, scope@, ambient@) =~= before
                    + interp_from(command@, i as int, scope@, ambient@));
                i = i + 1;
            },
        }
    }
    assert(out@ =~= out@ + interp_from(command@, n as int, scope@, ambient@));
    out
}

} // verus!

verus! {

proof fn lemma_unchanged_from(
    s: Seq<char>,
    i: int,
    scope: Seq<(String, String)>,
    ambient: Seq<(String, String)>,
)
    requires
        0 <= i <= s.len(),
        !has_marker(s),
    ensures
        interp_from(s, i, scope, ambient) == s.subrange(i, s.len() as int),
    decreases s.len() - i,
{
    if i < s.len() {
        assert(marker_at(s, i) is None);
        lemma_unchanged_from(s, i + 1, scope, ambient);
        assert(seq![s[i]] + s.subrange(i + 1, s.len() as int) =~= s.subrange(i, s.len() as int));
    } else {
        assert(s.subrange(i, s.len() as int) =~= Seq::<char>::empty());
    }
}

/// Text without any `${{ env.NAME }}` marker comes out of interpolation
/// unchanged, whatever the variables.
pub proof fn lemma_no_marker_unchanged(
    s: Seq<char>,
    scope: Seq<(String, String)>,
    ambient: Seq<(String, String)>,
)
    requires
        !has_marker(s),
    ensures
        interpolated(s, scope, ambient) == s,
{
    lemma_unchanged_from(s, 0, scope, ambient);
    assert(s.subrange(0, s.len() as int) =~= s);
}

/// The text `${{ env.NAME }}`.
pub open spec fn marker_text(name: Seq<char>) -> Seq<char> {
    "${{ env."@ + name + " }}"@
}

/// A name made of name characters only, and not empty.
pub open spec fn is_var_name(name: Seq<char>) -> bool {
    name.len() > 0 && forall|i: int| 0 <= i < name.len() ==> is_name_char(#[trigger] name[i])
}

proof fn lemma_name_run(s: Seq<char>, i: int, j: int)
    requires
        0 <= i <= j <= s.len(),
        forall|k: int| i <= k < j ==> is_name_char(#[trigger] s[k]),
        j < s.len() ==> !is_name_char(s[j]),
    ensures
        name_run(s, i) == j,
    decreases j - i,
{
    if i < j {
        lemma_name_run(s, i + 1, j);
    }
}

/// A lone marker is replaced by the scope's value of its variable where the
/// scope has one; else by the ambient environment's value; else by nothing.
pub proof fn lemma_marker_precedence(
    name: Seq<char>,
    scope: Seq<(String, String)>,
    ambient: Seq<(String, String)>,
)
    requires
        is_var_name(name),
    ensures
        lookup(scope, name) matches Some(v) ==> interpolated(marker_text(name), scope, ambient)
            == v,
        lookup(scope, name) is None ==> (lookup(ambient, name) matches Some(g) ==> interpolated(
            marker_text(name),
            scope,
            ambient,
        ) == g),
        lookup(scope, name) is None && lookup(ambient, name) is None ==> interpolated(
            marker_text(name),
            scope,
            ambient,
        ) == Seq::<char>::empty(),
{
    reveal_strlit("${{ env.");
    reveal_strlit(" }}");
    let s = marker_text(name);
    let n = name.len() as int;
    assert(s.len() == 11 + n);
    assert(s[3] == ' ');
    assert(!is_space(s[4]));
    assert(space_run(s, 3) == 4) by {
        assert(space_run(s, 4) == 4);
    }
    assert(env_prefix_at(s, 4));
    assert forall|k: int| 8 <= k < 8 + n implies is_name_char(#[trigger] s[k]) by {
        assert(s[k] == name[k - 8]);
    }
    lemma_name_run(s, 8, 8 + n);
    assert(s[8 + n] == ' ');
    assert(space_run(s, 8 + n) == 9 + n) by {
        assert(!is_space(s[9 + n]));
        assert(space_run(s, 9 + n) == 9 + n);
    }
    assert(closes_at(s, 9 + n));
    assert(marker_at(s, 0) == Some((8int, 8 + n, 11 + n)));
    assert(s.subrange(8, 8 + n) =~= name);
    assert(interp_from(s, 11 + n, scope, ambient) == Seq::<char>::empty());
    assert(interpolated(s, scope, ambient) =~= resolve_var(name, scope, ambient));
}

} // verus!
