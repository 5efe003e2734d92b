//! Verified parsing of the host's routing-table and resolver-configuration
//! text: raw command output, given as characters, is reduced to the
//! default-route addresses and nameserver entries it names.

use vstd::prelude::*;

verus! {

/// Whitespace that separates fields within a line.
pub open spec fn is_space(c: char) -> bool {
    c == ' ' || c == '\t' || c == '\r'
}

/// Decides whether a character separates fields within a line.
pub fn space_char(c: char) -> (r: bool)
    ensures
        r == is_space(c),
{
    c == ' ' || c == '\t' || c == '\r'
}

/// The text split at line breaks; separators are dropped, so a text without
/// any line break is a single line.
pub open spec fn split_lines_v(s: Seq<char>) -> Seq<Seq<char>>
    decreases s.len(),
{
    if s.len() == 0 {
        seq![Seq::<char>::empty()]
    } else if s[0] == '\n' {
        seq![Seq::<char>::empty()] + split_lines_v(s.drop_first())
    } else {
        let rest = split_lines_v(s.drop_first());
        seq![seq![s[0]] + rest[0]] + rest.drop_first()
    }
}

/// A split text always holds at least one line.
pub proof fn lemma_split_lines_nonempty(s: Seq<char>)
    ensures
        split_lines_v(s).len() >= 1,
    decreases s.len(),
{
    if s.len() == 0 {
    } else {
        lemma_split_lines_nonempty(s.drop_first());
    }
}

/// Splits a text at line breaks.
pub fn split_lines(text: &Vec<char>) -> (r: Vec<Vec<char>>)
    ensures
        r.deep_view() == split_lines_v(text@),
{
    let mut result: Vec<Vec<char>> = Vec::new();
    result.push(Vec::new());
    proof {
        assert(text@.skip(text@.len() as int) =~= Seq::<char>::empty());
        assert(result.deep_view() =~~= split_lines_v(text@.skip(text@.len() as int)));
    }
    let mut i: usize = text.len();
    while i > 0
        invariant
            i <= text.len(),
            result.deep_view() == split_lines_v(text@.skip(i as int)),
        decreases i,
    {
        i -= 1;
        let c = text[i];
        let ghost prev = result.deep_view();
        let ghost s = text@.skip(i as int);
        proof {
            assert(s[0] == text@[i as int]);
            assert(s.drop_first() =~= text@.skip(i as int + 1));
            lemma_split_lines_nonempty(s.drop_first());
        }
        if c == '\n' {
            let ghost prevv = result@;
            let empty_line: Vec<char> = Vec::new();
            let ghost e = empty_line;
            result.insert(0, empty_line);
            proof {
                prevv.insert_ensures(0, e);
                assert(result.deep_view() =~~= seq![Seq::<char>::empty()] + prev);
            }
        } else {
            proof {
                assert(result@.len() == prev.len());
            }
            let ghost f0 = result@[0]@;
            let first = &mut result[0];
            first.insert(0, c);
            proof {
                f0.insert_ensures(0, c);
                assert(result@[0]@ =~= seq![c] + f0);
                assert(result.deep_view() =~~= seq![seq![c] + prev[0]] + prev.drop_first());
            }
        }
        proof {
            assert(result.deep_view() =~~= split_lines_v(s));
        }
    }
    proof {
        assert(text@.skip(0) =~= text@);
    }
    result
}

/// The whitespace-separated fields of a line, in order and without empties.
pub open spec fn fields_v(s: Seq<char>) -> Seq<Seq<char>>
    decreases s.len(),
{
    if s.len() == 0 {
        Seq::<Seq<char>>::empty()
    } else if is_space(s[0]) {
        fields_v(s.drop_first())
    } else if s.len() > 1 && !is_space(s[1]) {
        let rest = fields_v(s.drop_first());
        seq![seq![s[0]] + rest[0]] + rest.drop_first()
    } else {
        seq![seq![s[0]]] + fields_v(s.drop_first())
    }
}

/// A line that starts with a field character has at least one field.
pub proof fn lemma_fields_nonempty(s: Seq<char>)
    requires
        s.len() > 0,
        !is_space(s[0]),
    ensures
        fields_v(s).len() >= 1,
{
}

/// Splits a line into its whitespace-separated fields.
pub fn split_fields(line: &Vec<char>) -> (r: Vec<Vec<char>>)
    ensures
        r.deep_view() == fields_v(line@),
{
    let mut result: Vec<Vec<char>> = Vec::new();
    proof {
        assert(line@.skip(line@.len() as int) =~= Seq::<char>::empty());
        assert(result.deep_view() =~~= fields_v(line@.skip(line@.len() as int)));
    }
    let mut i: usize = line.len();
    while i > 0
        invariant
            i <= line.len(),
            result.deep_view() == fields_v(line@.skip(i as int)),
        decreases i,
    {
        i -= 1;
        let c = line[i];
        let ghost prev = result.deep_view();
        let ghost s = line@.skip(i as int);
        proof {
            assert(s[0] == line@[i as int]);
            assert(s.drop_first() =~= line@.skip(i as int + 1));
            if s.len() > 1 {
                assert(s[1] == line@[i as int + 1]);
            }
        }
        if space_char(c) {
        } else if i + 1 < line.len() && !space_char(line[i + 1]) {
            proof {
                lemma_fields_nonempty(s.drop_first());
                assert(result@.len() == prev.len());
            }
            let ghost f0 = result@[0]@;
            let first = &mut result[0];
            first.insert(0, c);
            proof {
                f0.insert_ensures(0, c);
                assert(result@[0]@ =~= seq![c] + f0);
                assert(result.deep_view() =~~= seq![seq![c] + prev[0]] + prev.drop_first());
            }
        } else {
            let ghost prevv = result@;
            let mut tok: Vec<char> = Vec::new();
            tok.push(c);
            let ghost t = tok;
            result.insert(0, tok);
            proof {
                prevv.insert_ensures(0, t);
                assert(t@ =~= seq![c]);
                assert(result.deep_view() =~~= seq![seq![c]] + prev);
            }
        }
        proof {
            assert(result.deep_view() =~~= fields_v(s));
        }
    }
    proof {
        assert(line@.skip(0) =~= line@);
    }
    result
}

/// Whether the pattern occurs in the text at position `i`.
pub open spec fn matches_at(s: Seq<char>, pat: Seq<char>, i: int) -> bool {
    0 <= i && i + pat.len() <= s.len() && s.subrange(i, i + pat.len()) == pat
}

/// Whether the pattern occurs anywhere in the text.
pub open spec fn contains_seq(s: Seq<char>, pat: Seq<char>) -> bool {
    exists|i: int| matches_at(s, pat, i)
}

/// Decides whether the pattern occurs in the line at position `i`.
fn matches_pattern_at(line: &Vec<char>, pat: &Vec<char>, i: usize) -> (r: bool)
    requires
        i + pat@.len() <= line@.len(),
    ensures
        r == matches_at(line@, pat@, i as int),
{
    let n: usize = line.len();
    let mut j: usize = 0;
    while j < pat.len()
        invariant
            j <= pat@.len(),
            i + pat@.len() <= line@.len(),
            n == line@.len(),
            forall|t: int| 0 <= t < j ==> line@[i + t] == pat@[t],
        decreases pat@.len() - j,
    {
        if line[i + j] != pat[j] {
            proof {
                assert(line@.subrange(i as int, i + pat@.len()) != pat@) by {
                    assert(line@.subrange(i as int, i + pat@.len())[j as int] == line@[
                        i + j
                    ]);
                }
            }
            return false;
        }
        j += 1;
    }
    proof {
        assert(line@.subrange(i as int, i + pat@.len()) =~= pat@);
    }
    true
}

/// Decides whether the pattern occurs anywhere in the line.
pub fn contains_chars(line: &Vec<char>, pat: &Vec<char>) -> (r: bool)
    ensures
        r == contains_seq(line@, pat@),
{
    if pat.len() > line.len() {
        proof {
            assert(forall|i: int| !matches_at(line@, pat@, i));
        }
        return false;
    }
    if pat.len() == 0 {
        proof {
            assert(line@.subrange(0, 0) =~= pat@);
            assert(matches_at(line@, pat@, 0));
        }
        return true;
    }
    let limit: usize = line.len() - pat.len();
    let mut i: usize = 0;
    while i <= limit
        invariant
            1 <= pat@.len() <= line@.len(),
            line@.len() <= usize::MAX,
            limit == line@.len() - pat@.len(),
            i <= limit + 1,
            forall|t: int| 0 <= t < i ==> !matches_at(line@, pat@, t),
        decreases limit + 1 - i,
    {
        if matches_pattern_at(line, pat, i) {
            return true;
        }
        i += 1;
    }
    proof {
        assert(forall|t: int| t >= i ==> !matches_at(line@, pat@, t));
    }
    false
}

/// The text "default via", which marks a default-route line in routing-table
/// output.
pub fn default_via_pattern() -> (p: Vec<char>)
    ensures
        p@ == "default via"@,
{
    let mut p: Vec<char> = Vec::new();
    p.push('d');
    p.push('e');
    p.push('f');
    p.push('a');
    p.push('u');
    p.push('l');
    p.push('t');
    p.push(' ');
    p.push('v');
    p.push('i');
    p.push('a');
    proof {
        reveal_strlit("default via");
        assert(p@ =~= "default via"@);
    }
    p
}

/// The text "nameserver", which marks a resolver entry in resolver
/// configuration.
pub fn nameserver_pattern() -> (p: Vec<char>)
    ensures
        p@ == "nameserver"@,
{
    let mut p: Vec<char> = Vec::new();
    p.push('n');
    p.push('a');
    p.push('m');
    p.push('e');
    p.push('s');
    p.push('e');
    p.push('r');
    p.push('v');
    p.push('e');
    p.push('r');
    proof {
        reveal_strlit("nameserver");
        assert(p@ =~= "nameserver"@);
    }
    p
}

/// A routing-table line that names a default route: it mentions
/// "default via" and has a third field, the gateway address.
pub open spec fn is_default_route_line(line: Seq<char>) -> bool {
    contains_seq(line, "default via"@) && fields_v(line).len() >= 3
}

/// The gateway addresses named by a list of routing-table lines: the third
/// field of every default-route line, in order.
pub open spec fn gateway_ips_of_lines_v(lines: Seq<Seq<char>>) -> Seq<Seq<char>>
    decreases lines.len(),
{
    if lines.len() == 0 {
        Seq::<Seq<char>>::empty()
    } else {
        let rest = gateway_ips_of_lines_v(lines.drop_first());
        if is_default_route_line(lines[0]) {
            seq![fields_v(lines[0])[2]] + rest
        } else {
            rest
        }
    }
}

/// The gateway addresses named by routing-table output.
pub open spec fn gateway_ips_v(text: Seq<char>) -> Seq<Seq<char>> {
    gateway_ips_of_lines_v(split_lines_v(text))
}

/// A resolver-configuration line that names a nameserver: it starts with
/// "nameserver" and has a second field, the server address.
pub open spec fn is_nameserver_line(line: Seq<char>) -> bool {
    matches_at(line, "nameserver"@, 0) && fields_v(line).len() >= 2
}

/// The server addresses named by a list of resolver-configuration lines:
/// the second field of every nameserver line, in order.
pub open spec fn nameservers_of_lines_v(lines: Seq<Seq<char>>) -> Seq<Seq<char>>
    decreases lines.len(),
{
    if lines.len() == 0 {
        Seq::<Seq<char>>::empty()
    } else {
        let rest = nameservers_of_lines_v(lines.drop_first());
        if is_nameserver_line(lines[0]) {
            seq![fields_v(lines[0])[1]] + rest
        } else {
            rest
        }
    }
}

/// The server addresses named by resolver-configuration output.
pub open spec fn nameservers_v(text: Seq<char>) -> Seq<Seq<char>> {
    nameservers_of_lines_v(split_lines_v(text))
}

/// Copies a field.
fn copy_chars(v: &Vec<char>) -> (r: Vec<char>)
    ensures
        r@ == v@,
{
    let mut r: Vec<char> = Vec::new();
    let mut i: usize = 0;
    while i < v.len()
        invariant
            i <= v.len(),
            r@ == v@.subrange(0, i as int),
        decreases v.len() - i,
    {
        r.push(v[i]);
        assert(v@.subrange(0, i as int + 1) =~= v@.subrange(0, i as int).push(v@[i as int]));
        i += 1;
    }
    assert(v@.subrange(0, v@.len() as int) =~= v@);
    r
}

/// Decides whether a line names a default route.
fn default_route_line(line: &Vec<char>, pat: &Vec<char>, fields: &Vec<Vec<char>>) -> (r: bool)
    requires
        pat@ == "default via"@,
        fields.deep_view() == fields_v(line@),
    ensures
        r == is_default_route_line(line@),
{
    contains_chars(line, pat) && fields.len() >= 3
}

/// Reads the gateway addresses of the default routes out of routing-table
/// output.
pub fn parse_gateway_ips(text: &Vec<char>) -> (r: Vec<Vec<char>>)
    ensures
        r.deep_view() == gateway_ips_v(text@),
{
    let lines = split_lines(text);
    let pat = default_via_pattern();
    let ghost ls = lines.deep_view();
    let mut result: Vec<Vec<char>> = Vec::new();
    proof {
        assert(ls.skip(ls.len() as int) =~= Seq::<Seq<char>>::empty());
        assert(result.deep_view() =~~= gateway_ips_of_lines_v(ls.skip(ls.len() as int)));
    }
    let mut k: usize = lines.len();
    while k > 0
        invariant
            k <= lines.len(),
            ls == lines.deep_view(),
            pat@ == "default via"@,
            result.deep_view() == gateway_ips_of_lines_v(ls.skip(k as int)),
        decreases k,
    {
        k -= 1;
        let ghost prev = result.deep_view();
        let ghost s = ls.skip(k as int);
        proof {
            assert(s[0] == ls[k as int]);
            assert(s.drop_first() =~= ls.skip(k as int + 1));
            assert(lines@[k as int]@ == ls[k as int]);
        }
        let fields = split_fields(&lines[k]);
        if default_route_line(&lines[k], &pat, &fields) {
            let ip = copy_chars(&fields[2]);
            proof {
                assert(ip@ == fields.deep_view()[2]);
            }
            result.insert(0, ip);
            proof {
                assert(result.deep_view() =~~= seq![fields_v(ls[k as int])[2]] + prev);
            }
        }
        proof {
            assert(result.deep_view() =~~= gateway_ips_of_lines_v(s));
        }
    }
    proof {
        assert(ls.skip(0) =~= ls);
    }
    result
}

/// Decides whether a line names a nameserver.
fn nameserver_line(line: &Vec<char>, pat: &Vec<char>, fields: &Vec<Vec<char>>) -> (r: bool)
    requires
        pat@ == "nameserver"@,
        fields.deep_view() == fields_v(line@),
    ensures
        r == is_nameserver_line(line@),
{
    if line.len() < pat.len() {
        return false;
    }
    matches_pattern_at(line, pat, 0) && fields.len() >= 2
}

/// Reads the server addresses out of resolver-configuration output.
pub fn parse_nameservers(text: &Vec<char>) -> (r: Vec<Vec<char>>)
    ensures
        r.deep_view() == nameservers_v(text@),
{
    let lines = split_lines(text);
    let pat = nameserver_pattern();
    let ghost ls = lines.deep_view();
    let mut result: Vec<Vec<char>> = Vec::new();
    proof {
        assert(ls.skip(ls.len() as int) =~= Seq::<Seq<char>>::empty());
        assert(result.deep_view() =~~= nameservers_of_lines_v(ls.skip(ls.len() as int)));
    }
    let mut k: usize = lines.len();
    while k > 0
        invariant
            k <= lines.len(),
            ls == lines.deep_view(),
            pat@ == "nameserver"@,
            result.deep_view() == nameservers_of_lines_v(ls.skip(k as int)),
        decreases k,
    {
        k -= 1;
        let ghost prev = result.deep_view();
        let ghost s = ls.skip(k as int);
        proof {
            assert(s[0] == ls[k as int]);
            assert(s.drop_first() =~= ls.skip(k as int + 1));
            assert(lines@[k as int]@ == ls[k as int]);
        }
        let fields = split_fields(&lines[k]);
        if nameserver_line(&lines[k], &pat, &fields) {
            let server = copy_chars(&fields[1]);
            proof {
                assert(server@ == fields.deep_view()[1]);
            }
            result.insert(0, server);
            proof {
                assert(result.deep_view() =~~= seq![fields_v(ls[k as int])[1]] + prev);
            }
        }
        proof {
            assert(result.deep_view() =~~= nameservers_of_lines_v(s));
        }
    }
    proof {
        assert(ls.skip(0) =~= ls);
    }
    result
}

} // verus!
