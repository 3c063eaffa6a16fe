//! Expanding `$NAME` and `${NAME}` in a command line from a given environment.

use vstd::prelude::*;

verus! {

pub open spec fn is_name_start(c: char) -> bool {
    ('a' <= c && c <= 'z') || ('A' <= c && c <= 'Z') || c == '_'
}

pub open spec fn is_name_char(c: char) -> bool {
    is_name_start(c) || ('0' <= c && c <= '9')
}

/// The end of the run of name characters that starts at `i`.
pub open spec fn name_end(s: Seq<char>, i: int) -> int
    decreases s.len() - i,
{
    if i < 0 || i >= s.len() || !is_name_char(s[i]) {
        i
    } else {
        name_end(s, i + 1)
    }
}

proof fn lemma_name_end(s: Seq<char>, i: int)
    requires
        0 <= i <= s.len(),
    ensures
        i <= name_end(s, i) <= s.len(),
        forall|t: int| i <= t < name_end(s, i) ==> is_name_char(#[trigger] s[t]),
        name_end(s, i) < s.len() ==> !is_name_char(s[name_end(s, i)]),
    decreases s.len() - i,
{
    if i < s.len() && is_name_char(s[i]) {
        lemma_name_end(s, i + 1);
    }
}

/// The value of the first variable called `name`.
pub open spec fn lookup(vars: Seq<(String, String)>, name: Seq<char>) -> Option<Seq<char>>
    decreases vars.len(),
{
    if vars.len() == 0 {
        None
    } else if vars[0].0@ == name {
        Some(vars[0].1@)
    } else {
        lookup(vars.skip(1), name)
    }
}

/// The text for the reference `s[from..to]` that names `s[name_from..name_to]`:
/// the variable's value, or the reference itself where there is no such variable.
pub open spec fn replacement(
    s: Seq<char>,
    vars: Seq<(String, String)>,
    from: int,
    name_from: int,
    name_to: int,
    to: int,
) -> Seq<char> {
    match lookup(vars, s.subrange(name_from, name_to)) {
        Some(v) => v,
        None => s.subrange(from, to),
    }
}

/// A `$NAME` reference starts at `i`.
pub open spec fn plain_ref_at(s: Seq<char>, i: int) -> bool {
    0 <= i && i + 1 < s.len() && s[i] == '$' && is_name_start(s[i + 1])
}

/// A `${NAME}` reference starts at `i`.
pub open spec fn braced_ref_at(s: Seq<char>, i: int) -> bool {
    &&& 0 <= i
    &&& i + 2 < s.len()
    &&& s[i] == '$'
    &&& s[i + 1] == '{'
    &&& is_name_start(s[i + 2])
    &&& name_end(s, i + 2) < s.len()
    &&& s[name_end(s, i + 2)] == '}'
}

/// `s` from position `i` on, with each reference, taken left to right, replaced.
pub open spec fn expanded_from(s: Seq<char>, vars: Seq<(String, String)>, i: int) -> Seq<char>
    decreases s.len() - i,
{
    if i < 0 || i >= s.len() {
        Seq::empty()
    } else if plain_ref_at(s, i) {
        let e = name_end(s, i + 1);
        if e <= i || e > s.len() {
            Seq::empty()
        } else {
            replacement(s, vars, i, i + 1, e, e) + expanded_from(s, vars, e)
        }
    } else if braced_ref_at(s, i) {
        let e = name_end(s, i + 2);
        if e < i || e >= s.len() {
            Seq::empty()
        } else {
            replacement(s, vars, i, i + 2, e, e + 1) + expanded_from(s, vars, e + 1)
        }
    } else {
        seq![s[i]] + expanded_from(s, vars, i + 1)
    }
}

fn char_is_name_start(c: char) -> (r: bool)
    ensures
        r == is_name_start(c),
{
    ('a' <= c && c <= 'z') || ('A' <= c && c <= 'Z') || c == '_'
}

fn find_name_end(s: &str, i: usize) -> (r: usize)
    requires
        i <= s@.len(),
    ensures
        r as int == name_end(s@, i as int),
{
    proof {
        lemma_name_end(s@, i as int);
    }
    let n = s.unicode_len();
    let mut j: usize = i;
    while j < n && (char_is_name_start(s.get_char(j)) || ('0' <= s.get_char(j) && s.get_char(j)
        <= '9'))
        invariant
            n == s@.len(),
            i <= j <= n,
            name_end(s@, j as int) == name_end(s@, i as int),
        decreases n - j,
    {
        j = j + 1;
    }
    j
}

fn find_var(vars: &Vec<(String, String)>, name: &String) -> (r: Option<usize>)
    ensures
        r is None ==> lookup(vars@, name@) is None,
        r matches Some(j) ==> j < vars.len() && lookup(vars@, name@) == Some(vars@[j as int].1@),
{
    let mut j: usize = 0;
    assert(vars@.skip(0) =~= vars@);
    while j < vars.len()
        invariant
            j <= vars.len(),
            lookup(vars@, name@) == lookup(vars@.skip(j as int), name@),
        decreases vars.len() - j,
    {
        proof {
            assert(vars@.skip(j as int).skip(1) =~= vars@.skip(j + 1));
        }
        if vars[j].0 == *name {
            return Some(j);
        }
        j = j + 1;
    }
    None
}

fn append_replacement(
    out: &mut String,
    s: &str,
    vars: &Vec<(String, String)>,
    from: usize,
    name_from: usize,
    name_to: usize,
    to: usize,
)
    requires
        from <= name_from <= name_to <= to <= s@.len(),
    ensures
        final(out)@ == old(out)@ + replacement(
            s@,
            vars@,
            from as int,
            name_from as int,
            name_to as int,
            to as int,
        ),
{
    let name = String::from_str(s.substring_char(name_from, name_to));
    match find_var(vars, &name) {
        Some(j) => out.append(vars[j].1.as_str()),
        None => out.append(s.substring_char(from, to)),
    }
}

/// `command` with each `$NAME` and `${NAME}` replaced by the value that `vars` gives
/// that name first; a reference to a name that `vars` lacks stays as it is.
pub fn substitute_env_vars(command: &str, vars: &Vec<(String, String)>) -> (r: String)
    ensures
        r@ == expanded_from(command@, vars@, 0),
{
    let ghost s = command@;
    let n = command.unicode_len();
    let mut r = String::new();
    let mut i: usize = 0;
    while i < n
        invariant
            n == s.len(),
            s == command@,
            i <= n,
            r@ + expanded_from(s, vars@, i as int) == expanded_from(s, vars@, 0),
        decreases n - i,
    {
        let c = command.get_char(i);
        if c == '$' && i + 1 < n && char_is_name_start(command.get_char(i + 1)) {
            let e = find_name_end(command, i + 1);
            proof {
                lemma_name_end(s, i + 1);
                assert(plain_ref_at(s, i as int));
            }
            append_replacement(&mut r, command, vars, i, i + 1, e, e);
            i = e;
        } else if c == '$' && i + 1 < n && i + 2 < n && command.get_char(i + 1) == '{' && char_is_name_start(
            command.get_char(i + 2),
        ) && find_name_end(command, i + 2) < n && command.get_char(find_name_end(command, i + 2))
            == '}' {
            let e = find_name_end(command, i + 2);
            proof {
                lemma_name_end(s, i + 2);
                assert(!plain_ref_at(s, i as int));
                assert(braced_ref_at(s, i as int));
            }
            append_replacement(&mut r, command, vars, i, i + 2, e, e + 1);
            i = e + 1;
        } else {
            proof {
                assert(!plain_ref_at(s, i as int));
                assert(!braced_ref_at(s, i as int));
            }
            let one = command.substring_char(i, i + 1);
            assert(one@ =~= seq![s[i as int]]);
            r.append(one);
            i = i + 1;
        }
    }
    r
}

} // verus!
