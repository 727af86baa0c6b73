use vstd::prelude::*;

use crate::text::{concat, contains_seq, occurs_at, str_eq};

verus! {

/// The placeholder `{name}` of a template parameter.
pub open spec fn placeholder(name: Seq<char>) -> Seq<char> {
    seq!['{'] + name + seq!['}']
}

/// The first position of `pat` in `s`.
pub fn find_substring(s: &str, pat: &str) -> (r: Option<usize>)
    ensures
        r matches Some(i) ==> occurs_at(s@, pat@, i as int) && forall|j: int|
            0 <= j < i ==> !occurs_at(s@, pat@, j),
        r is None ==> !contains_seq(s@, pat@),
{
    let n = s.unicode_len();
    let m = pat.unicode_len();
    if m > n {
        return None;
    }
    if m == 0 {
        assert(s@.subrange(0, 0) =~= pat@);
        return Some(0);
    }
    let mut i: usize = 0;
    while i <= n - m
        invariant
            n == s@.len(),
            m == pat@.len(),
            1 <= m <= n,
            i <= n - m + 1,
            forall|j: int| 0 <= j < i ==> !occurs_at(s@, pat@, j),
        decreases n - i,
    {
        let piece = s.substring_char(i, i + m);
        if str_eq(piece, pat) {
            return Some(i);
        }
        i = i + 1;
    }
    None
}

/// The parameter `param_name`, when the template `uri` has the placeholder `{param_name}`.
pub fn extract_parameter_from_uri(uri: &str, param_name: &str) -> (r: Option<String>)
    ensures
        r is Some <==> contains_seq(uri@, placeholder(param_name@)),
        r matches Some(p) ==> p@ == param_name@,
{
    proof {
        reveal_strlit("{");
        reveal_strlit("}");
    }
    let open = concat("{", param_name);
    let pat = concat(open.as_str(), "}");
    assert(pat@ =~= placeholder(param_name@));
    match find_substring(uri, pat.as_str()) {
        Some(_) => Some(param_name.to_owned()),
        None => None,
    }
}

} // verus!

verus! {

/// Whether `c` opens or closes a placeholder.
pub open spec fn is_brace(c: char) -> bool {
    c == '{' || c == '}'
}

/// The pieces of a template between braces: literals at even positions, parameter names
/// at odd positions (`file:///{p}/{f}` gives `file:///`, `p`, `/`, `f`, and an empty literal).
pub open spec fn template_parts(t: Seq<char>) -> Seq<Seq<char>>
    decreases t.len(),
{
    if t.len() == 0 {
        seq![Seq::empty()]
    } else {
        let rest = template_parts(t.drop_last());
        if is_brace(t.last()) {
            rest.push(Seq::empty())
        } else {
            rest.update(rest.len() - 1, rest.last().push(t.last()))
        }
    }
}

/// The text that the template parts `parts` give with `values[k]` in place of the
/// `k`-th parameter.
pub open spec fn fill(parts: Seq<Seq<char>>, values: Seq<Seq<char>>) -> Seq<char>
    decreases parts.len(),
{
    if parts.len() == 0 {
        Seq::empty()
    } else {
        let head = fill(parts.drop_last(), values);
        if (parts.len() - 1) % 2 == 0 {
            head + parts.last()
        } else {
            head + values[(parts.len() - 1) / 2]
        }
    }
}

pub proof fn lemma_template_parts_nonempty(t: Seq<char>)
    ensures
        template_parts(t).len() >= 1,
    decreases t.len(),
{
    if t.len() > 0 {
        lemma_template_parts_nonempty(t.drop_last());
    }
}

/// The template parts of `t`, each as a string.
pub fn split_template(t: &str) -> (r: Vec<String>)
    ensures
        r@.len() == template_parts(t@).len(),
        forall|k: int| 0 <= k < r@.len() ==> #[trigger] r@[k]@ == template_parts(t@)[k],
{
    let n = t.unicode_len();
    let mut parts: Vec<String> = Vec::new();
    let mut start: usize = 0;
    let mut i: usize = 0;
    assert(t@.subrange(0, 0) =~= Seq::<char>::empty());
    while i < n
        invariant
            n == t@.len(),
            start <= i <= n,
            parts@.len() + 1 == template_parts(t@.subrange(0, i as int)).len(),
            forall|k: int| 0 <= k < parts@.len() ==> #[trigger] parts@[k]@ == template_parts(
                t@.subrange(0, i as int),
            )[k],
            template_parts(t@.subrange(0, i as int)).last() == t@.subrange(start as int, i as int),
        decreases n - i,
    {
        let c = t.get_char(i);
        let ghost pre = t@.subrange(0, i as int);
        let ghost next = t@.subrange(0, i + 1);
        assert(next.drop_last() =~= pre);
        assert(next.last() == c);
        proof {
            lemma_template_parts_nonempty(pre);
        }
        if c == '{' || c == '}' {
            parts.push(t.substring_char(start, i).to_owned());
            start = i + 1;
            assert(t@.subrange(start as int, i + 1) =~= Seq::<char>::empty());
        } else {
            assert(t@.subrange(start as int, i + 1) =~= t@.subrange(start as int, i as int).push(c));
        }
        i = i + 1;
    }
    assert(t@.subrange(0, n as int) =~= t@);
    parts.push(t.substring_char(start, n).to_owned());
    parts
}

/// The value given for parameter `name`: that of the first pair with that name.
pub open spec fn param_value(params: Seq<(String, String)>, name: Seq<char>) -> Option<Seq<char>>
    decreases params.len(),
{
    if params.len() == 0 {
        None
    } else if params[0].0@ == name {
        Some(params[0].1@)
    } else {
        param_value(params.drop_first(), name)
    }
}

/// What stands in place of each parameter of `parts` when expanding with `params`: its
/// value, or the placeholder itself when no value is given.
pub open spec fn substitutes(parts: Seq<Seq<char>>, params: Seq<(String, String)>) -> Seq<Seq<char>> {
    Seq::new(
        (parts.len() / 2) as nat,
        |k: int|
            match param_value(params, parts[2 * k + 1]) {
                Some(v) => v,
                None => placeholder(parts[2 * k + 1]),
            },
    )
}

/// The values of `pairs`, in order.
pub open spec fn values_of(pairs: Seq<(String, String)>) -> Seq<Seq<char>> {
    Seq::new(pairs.len(), |k: int| pairs[k].1@)
}

/// Filling only reads the values of the parameters that occur.
pub proof fn lemma_fill_prefix_values(parts: Seq<Seq<char>>, a: Seq<Seq<char>>, b: Seq<Seq<char>>)
    requires
        a.len() >= parts.len() / 2,
        b.len() >= a.len(),
        forall|k: int| 0 <= k < a.len() ==> a[k] == b[k],
    ensures
        fill(parts, a) == fill(parts, b),
    decreases parts.len(),
{
    if parts.len() > 0 {
        lemma_fill_prefix_values(parts.drop_last(), a, b);
    }
}

/// The value given for parameter `name`.
pub fn find_param<'a>(params: &'a Vec<(String, String)>, name: &str) -> (r: Option<&'a String>)
    ensures
        r matches Some(v) ==> param_value(params@, name@) == Some(v@),
        r is None ==> param_value(params@, name@) is None,
{
    let mut i: usize = 0;
    assert(params@.subrange(0, params@.len() as int) =~= params@);
    while i < params.len()
        invariant
            i <= params@.len(),
            param_value(params@, name@) == param_value(params@.subrange(i as int, params@.len() as int), name@),
        decreases params@.len() - i,
    {
        let ghost rest = params@.subrange(i as int, params@.len() as int);
        assert(rest[0] == params@[i as int]);
        if str_eq(params[i].0.as_str(), name) {
            return Some(&params[i].1);
        }
        assert(rest.drop_first() =~= params@.subrange(i + 1, params@.len() as int));
        i = i + 1;
    }
    None
}

/// Part `k` of the text that `parts` give with `values`: a literal, or a parameter's value.
pub open spec fn piece(parts: Seq<Seq<char>>, values: Seq<Seq<char>>, k: int) -> Seq<char> {
    if k % 2 == 0 {
        parts[k]
    } else {
        values[k / 2]
    }
}

/// The text that parts `k..` of `parts` give with `values`.
pub open spec fn fill_from(parts: Seq<Seq<char>>, values: Seq<Seq<char>>, k: int) -> Seq<char>
    decreases parts.len() - k,
{
    if k < 0 || k >= parts.len() {
        Seq::empty()
    } else {
        piece(parts, values, k) + fill_from(parts, values, k + 1)
    }
}

/// The text of the whole template is that of its first `k` parts followed by the rest.
pub proof fn lemma_fill_split(parts: Seq<Seq<char>>, values: Seq<Seq<char>>, k: int)
    requires
        0 <= k <= parts.len(),
    ensures
        fill(parts.subrange(0, k), values) + fill_from(parts, values, k) == fill(parts, values),
    decreases parts.len() - k,
{
    if k == parts.len() {
        assert(parts.subrange(0, k) =~= parts);
        assert(fill(parts, values) + Seq::<char>::empty() =~= fill(parts, values));
    } else {
        let next = parts.subrange(0, k + 1);
        assert(next.drop_last() =~= parts.subrange(0, k));
        assert(fill(next, values) == fill(parts.subrange(0, k), values) + piece(parts, values, k));
        lemma_fill_split(parts, values, k + 1);
        assert(fill(parts.subrange(0, k), values) + fill_from(parts, values, k) =~= fill(next, values)
            + fill_from(parts, values, k + 1));
    }
}

/// The value `v` of parameter `k` can be told apart from what follows it: the literal after
/// it does not start inside `v`, and a parameter with an empty literal after it comes last.
pub open spec fn value_readable(parts: Seq<Seq<char>>, v: Seq<char>, k: int) -> bool {
    let l = 2 * k + 2;
    if l < parts.len() && parts[l].len() > 0 {
        forall|p: int| 0 <= p < v.len() ==> !occurs_at(v + parts[l], parts[l], p)
    } else {
        l >= parts.len() - 1
    }
}

/// Every parameter of `parts` has a value in `values` that can be read back.
pub open spec fn readable(parts: Seq<Seq<char>>, values: Seq<Seq<char>>) -> bool {
    &&& values.len() == parts.len() / 2
    &&& forall|k: int| 0 <= k < values.len() ==> value_readable(parts, #[trigger] values[k], k)
}

} // verus!
