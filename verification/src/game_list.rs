//! The plain-text game-list format: one game name per line.
//!
//! Both list files the tool keeps (the custom games and the games last seen
//! with no viewers) use this format. Rendering writes each name followed by
//! a newline; parsing splits on newlines, and a trailing newline adds no
//! empty final name. A list read from disk is treated as a set: duplicates
//! collapse, and names can be removed wholesale from a search list.

use vstd::prelude::*;

verus! {

/// The names one text holds, split at `'\n'`: the text between consecutive
/// newlines, with no empty name after a final newline.
pub open spec fn spec_parse_lines(t: Seq<char>) -> Seq<Seq<char>>
    decreases t.len(),
{
    if t.len() == 0 {
        Seq::empty()
    } else if t[0] == '\n' {
        seq![Seq::<char>::empty()] + spec_parse_lines(t.skip(1))
    } else {
        let rest = spec_parse_lines(t.skip(1));
        if rest.len() == 0 {
            seq![seq![t[0]]]
        } else {
            seq![seq![t[0]] + rest[0]] + rest.skip(1)
        }
    }
}

/// The text that renders a list of names: each name followed by `'\n'`.
pub open spec fn spec_render_lines(names: Seq<Seq<char>>) -> Seq<char>
    decreases names.len(),
{
    if names.len() == 0 {
        Seq::empty()
    } else {
        names[0] + seq!['\n'] + spec_render_lines(names.skip(1))
    }
}

/// A name fits on one line exactly when it holds no newline.
pub open spec fn line_safe(name: Seq<char>) -> bool {
    !name.contains('\n')
}

/// Parsing a non-empty newline-free text yields that text as the one name.
proof fn lemma_parse_single_line(u: Seq<char>)
    requires
        u.len() > 0,
        line_safe(u),
    ensures
        spec_parse_lines(u) == seq![u],
    decreases u.len(),
{
    assert(u[0] != '\n') by {
        assert(u.contains(u[0]));
    }
    if u.len() == 1 {
        assert(u.skip(1).len() == 0);
        assert(spec_parse_lines(u.skip(1)) =~= Seq::<Seq<char>>::empty());
        assert(seq![u[0]] =~= u);
        assert(spec_parse_lines(u) =~= seq![u]);
    } else {
        assert(forall|j: int| 0 <= j < u.skip(1).len() ==> u.skip(1)[j] == u[j + 1]);
        assert(line_safe(u.skip(1))) by {
            if u.skip(1).contains('\n') {
                let j = choose|j: int| 0 <= j < u.skip(1).len() && u.skip(1)[j] == '\n';
                assert(u[j + 1] == '\n');
                assert(u.contains('\n'));
            }
        }
        lemma_parse_single_line(u.skip(1));
        let rest = spec_parse_lines(u.skip(1));
        assert(rest.len() == 1);
        assert(rest[0] == u.skip(1));
        assert(seq![u[0]] + u.skip(1) =~= u);
        assert(rest.skip(1) =~= Seq::<Seq<char>>::empty());
        assert(spec_parse_lines(u) =~= seq![u]);
    }
}

/// Parsing one newline-free line, a newline, and a remainder yields that
/// line followed by whatever the remainder parses to.
proof fn lemma_parse_line_prefix(u: Seq<char>, rest: Seq<char>)
    requires
        line_safe(u),
    ensures
        spec_parse_lines(u + seq!['\n'] + rest) == seq![u] + spec_parse_lines(rest),
    decreases u.len(),
{
    let t = u + seq!['\n'] + rest;
    if u.len() == 0 {
        assert(u =~= Seq::<char>::empty());
        assert(t =~= seq!['\n'] + rest);
        assert(t.skip(1) =~= rest);
        assert(seq![Seq::<char>::empty()] + spec_parse_lines(rest) =~= seq![u]
            + spec_parse_lines(rest));
    } else {
        assert(u[0] != '\n') by {
            assert(u.contains(u[0]));
        }
        assert(t[0] == u[0]);
        assert(line_safe(u.skip(1))) by {
            if u.skip(1).contains('\n') {
                let j = choose|j: int| 0 <= j < u.skip(1).len() && u.skip(1)[j] == '\n';
                assert(u[j + 1] == '\n');
                assert(u.contains('\n'));
            }
        }
        lemma_parse_line_prefix(u.skip(1), rest);
        assert(t.skip(1) =~= u.skip(1) + seq!['\n'] + rest);
        let inner = spec_parse_lines(t.skip(1));
        assert(inner == seq![u.skip(1)] + spec_parse_lines(rest));
        assert(inner.len() > 0);
        assert(inner[0] == u.skip(1));
        assert(seq![u[0]] + inner[0] =~= u);
        assert(inner.skip(1) =~= spec_parse_lines(rest));
        assert(seq![seq![t[0]] + inner[0]] + inner.skip(1) =~= seq![u]
            + spec_parse_lines(rest));
    }
}

/// Writing a list of names to the file format and reading it back yields
/// the same names, in the same order, provided no name holds a newline.
pub proof fn lemma_game_list_round_trip(names: Seq<Seq<char>>)
    requires
        forall|i: int| 0 <= i < names.len() ==> line_safe(#[trigger] names[i]),
    ensures
        spec_parse_lines(spec_render_lines(names)) == names,
    decreases names.len(),
{
    if names.len() > 0 {
        lemma_parse_line_prefix(names[0], spec_render_lines(names.skip(1)));
        lemma_game_list_round_trip(names.skip(1));
        assert(seq![names[0]] + names.skip(1) =~= names);
    }
}

/// Split a game-list text into the names it holds, one per line. Duplicate
/// lines are kept here; a caller that wants set semantics deduplicates with
/// [`dedup_names`].
pub fn parse_game_list(text: &str) -> (names: Vec<String>)
    ensures
        names.deep_view() == spec_parse_lines(text@),
{
    let n = text.unicode_len();
    let mut names: Vec<String> = Vec::new();
    let mut start: usize = 0;
    let mut i: usize = 0;
    proof {
        assert(text@.skip(0) =~= text@);
    }
    while i < n
        invariant
            n == text@.len(),
            0 <= start <= i <= n,
            forall|j: int| start <= j < i ==> text@[j] != '\n',
            spec_parse_lines(text@) == names.deep_view()
                + spec_parse_lines(text@.skip(start as int)),
        decreases n - i,
    {
        let c = text.get_char(i);
        if c == '\n' {
            let line = text.substring_char(start, i).to_owned();
            proof {
                assert(line_safe(line@)) by {
                    if line@.contains('\n') {
                        let j = choose|j: int|
                            0 <= j < line@.len() && line@[j] == '\n';
                        assert(text@[start + j] == '\n');
                    }
                }
                assert(text@.skip(start as int) =~= line@ + seq!['\n']
                    + text@.skip(i as int + 1));
                lemma_parse_line_prefix(line@, text@.skip(i as int + 1));
            }
            names.push(line);
            proof {
                assert(names.deep_view() =~= names.deep_view().take(
                    names.deep_view().len() - 1) + seq![line@]);
            }
            start = i + 1;
        }
        i = i + 1;
    }
    if start < n {
        let line = text.substring_char(start, n).to_owned();
        proof {
            assert(line@ =~= text@.skip(start as int));
            assert(line_safe(line@)) by {
                if line@.contains('\n') {
                    let j = choose|j: int| 0 <= j < line@.len() && line@[j] == '\n';
                    assert(text@[start + j] == '\n');
                }
            }
            lemma_parse_single_line(line@);
        }
        names.push(line);
        proof {
            assert(names.deep_view() =~= names.deep_view().take(
                names.deep_view().len() - 1) + seq![line@]);
        }
    } else {
        proof {
            assert(text@.skip(start as int) =~= Seq::<char>::empty());
        }
    }
    proof {
        assert(names.deep_view() + Seq::<Seq<char>>::empty() =~= names.deep_view());
    }
    names
}

/// Render a list of names as the game-list file format, one name per line.
pub fn render_game_list(names: &Vec<String>) -> (text: String)
    ensures
        text@ == spec_render_lines(names.deep_view()),
{
    let ghost full = names.deep_view();
    let mut text = String::new();
    let mut i: usize = 0;
    proof {
        assert(full.skip(0) =~= full);
    }
    while i < names.len()
        invariant
            full == names.deep_view(),
            0 <= i <= names.len(),
            spec_render_lines(full) == text@ + spec_render_lines(full.skip(i as int)),
        decreases names.len() - i,
    {
        proof {
            assert(full.skip(i as int)[0] == full[i as int]);
            assert(full.skip(i as int).skip(1) =~= full.skip(i as int + 1));
        }
        text.append(names[i].as_str());
        text.append("\n");
        proof {
            reveal_strlit("\n");
            assert("\n"@ =~= seq!['\n']);
            assert(spec_render_lines(full) =~= text@
                + spec_render_lines(full.skip(i as int + 1)));
        }
        i = i + 1;
    }
    proof {
        assert(full.skip(names.deep_view().len() as int) =~= Seq::<Seq<char>>::empty());
        assert(text@ + Seq::<char>::empty() =~= text@);
    }
    text
}

/// Whether a list holds a given name.
pub fn contains_name(names: &Vec<String>, name: &String) -> (present: bool)
    ensures
        present == names.deep_view().contains(name@),
{
    let mut i: usize = 0;
    while i < names.len()
        invariant
            0 <= i <= names.len(),
            forall|j: int| 0 <= j < i ==> names.deep_view()[j] != name@,
        decreases names.len() - i,
    {
        if names[i].eq(name) {
            proof {
                assert(names.deep_view()[i as int] == name@);
            }
            return true;
        }
        i = i + 1;
    }
    proof {
        if names.deep_view().contains(name@) {
            let j = choose|j: int|
                0 <= j < names.deep_view().len() && names.deep_view()[j] == name@;
        }
    }
    false
}

/// Collapse duplicates: the result holds each name of the input exactly
/// once, keeping first occurrences in order.
pub fn dedup_names(names: &Vec<String>) -> (out: Vec<String>)
    ensures
        out.deep_view().to_set() == names.deep_view().to_set(),
        forall|i: int, j: int|
            0 <= i < j < out.deep_view().len() ==> out.deep_view()[i]
                != out.deep_view()[j],
        out.deep_view() == names.deep_view().remove_duplicates(Seq::empty()),
{
    let ghost full = names.deep_view();
    let mut out: Vec<String> = Vec::new();
    let mut i: usize = 0;
    proof {
        assert(full.skip(0) =~= full);
        assert(out.deep_view() =~= Seq::<Seq<char>>::empty());
    }
    while i < names.len()
        invariant
            full == names.deep_view(),
            0 <= i <= names.len(),
            forall|p: int, q: int|
                0 <= p < q < out.deep_view().len() ==> out.deep_view()[p]
                    != out.deep_view()[q],
            forall|x: Seq<char>|
                #[trigger] out.deep_view().contains(x) == full.take(i as int).contains(x),
            full.remove_duplicates(Seq::empty()) == full.skip(i as int).remove_duplicates(
                out.deep_view(),
            ),
        decreases names.len() - i,
    {
        proof {
            assert(full.skip(i as int)[0] == full[i as int]);
            assert(full.skip(i as int).skip(1) =~= full.skip(i as int + 1));
        }
        let present = contains_name(&out, &names[i]);
        let ghost pre = out.deep_view();
        if !present {
            let name = names[i].clone();
            out.push(name);
            proof {
                assert(out.deep_view() =~= pre.push(full[i as int]));
                assert(out.deep_view() =~= pre + seq![full[i as int]]);
                assert(forall|k: int| 0 <= k < pre.len() ==> pre[k] != full[i as int]);
            }
        }
        proof {
            broadcast use vstd::prelude::Seq::lemma_take_succ_push;
            broadcast use vstd::seq_lib::group_seq_properties;
            assert(full.take(i as int + 1) =~= full.take(i as int).push(full[i as int]));
            assert forall|x: Seq<char>|
                #[trigger] out.deep_view().contains(x) == full.take(
                    i as int + 1).contains(x) by {
                assert(full.take(i as int + 1).contains(x) == full.take(i as int).push(
                    full[i as int]).contains(x));
                if !present {
                    assert(out.deep_view().contains(x) == pre.push(
                        full[i as int]).contains(x));
                } else {
                    assert(full.take(i as int).contains(full[i as int]));
                }
            }
        }
        i = i + 1;
    }
    proof {
        assert(full.take(names.deep_view().len() as int) =~= full);
        assert(out.deep_view().to_set() =~= names.deep_view().to_set());
        assert(full.skip(names.deep_view().len() as int) =~= Seq::<Seq<char>>::empty());
        assert(full.skip(names.deep_view().len() as int).remove_duplicates(out.deep_view())
            == out.deep_view());
    }
    out
}

/// Drop from a search list every name that stands in a list of known
/// names: the quiet mode removes the games last seen with no viewers from
/// the search set before anything is fetched.
pub fn remove_known(names: &Vec<String>, known: &Vec<String>) -> (out: Vec<String>)
    ensures
        out.deep_view() == names.deep_view().filter(
            |s: Seq<char>| !known.deep_view().contains(s),
        ),
{
    let ghost full = names.deep_view();
    let mut out: Vec<String> = Vec::new();
    let mut i: usize = 0;
    proof {
        assert(full.take(0) =~= Seq::<Seq<char>>::empty());
        assert(full.take(0).filter(|s: Seq<char>| !known.deep_view().contains(s))
            =~= Seq::<Seq<char>>::empty());
    }
    while i < names.len()
        invariant
            full == names.deep_view(),
            0 <= i <= names.len(),
            out.deep_view() == full.take(i as int).filter(
                |s: Seq<char>| !known.deep_view().contains(s),
            ),
        decreases names.len() - i,
    {
        let keep = !contains_name(known, &names[i]);
        let ghost pre = out.deep_view();
        if keep {
            let name = names[i].clone();
            out.push(name);
            proof {
                assert(out.deep_view() =~= pre.push(full[i as int]));
            }
        }
        proof {
            broadcast use vstd::prelude::Seq::lemma_take_succ_push;
            broadcast use vstd::prelude::Seq::lemma_filter_push;
            assert(full.take(i as int + 1) =~= full.take(i as int).push(full[i as int]));
            assert(full.take(i as int + 1).filter(
                |s: Seq<char>| !known.deep_view().contains(s),
            ) == full.take(i as int).push(full[i as int]).filter(
                |s: Seq<char>| !known.deep_view().contains(s),
            ));
            if keep {
                assert(full.take(i as int).push(full[i as int]).filter(
                    |s: Seq<char>| !known.deep_view().contains(s),
                ) =~= full.take(i as int).filter(
                    |s: Seq<char>| !known.deep_view().contains(s),
                ).push(full[i as int]));
            } else {
                assert(full.take(i as int).push(full[i as int]).filter(
                    |s: Seq<char>| !known.deep_view().contains(s),
                ) =~= full.take(i as int).filter(
                    |s: Seq<char>| !known.deep_view().contains(s),
                ));
            }
            assert(out.deep_view() =~= full.take(i as int + 1).filter(
                |s: Seq<char>| !known.deep_view().contains(s),
            ));
        }
        i = i + 1;
    }
    proof {
        assert(full.take(names.deep_view().len() as int) =~= full);
    }
    out
}

} // verus!
