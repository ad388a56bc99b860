//! General properties of the pipeline, stated and proved over the same spec
//! functions that the executable functions' contracts use.

use vstd::prelude::*;
use crate::chars::space_char;
use crate::scan::{space_run, lemma_space_run};
use crate::text_parser::{
    join_with, collapse_ws, collapse_ws_from, trim_spec, trim_end_idx, lemma_trim_end_idx,
    post_process_spec, processed_value, processed_values, nonempty_values, process_result,
    filter_out, contains_text, parse_value_spec,
};
use crate::tokenizer::{tokenize_text, lemma_tokenize_from_nonempty};

verus! {

/// A text in which every whitespace character is a plain space and no two
/// whitespace characters stand side by side.
pub open spec fn single_spaced(s: Seq<char>) -> bool {
    &&& forall|k: int| 0 <= k < s.len() && space_char(#[trigger] s[k]) ==> s[k] == ' '
    &&& forall|k: int| 0 <= k < s.len() - 1 && space_char(#[trigger] s[k]) ==> !space_char(
        s[k + 1],
    )
}

/// On a single-spaced text, collapsing whitespace changes nothing.
proof fn lemma_collapse_identity_from(s: Seq<char>, i: int)
    requires
        single_spaced(s),
        0 <= i <= s.len(),
    ensures
        collapse_ws_from(s, i) == s.subrange(i, s.len() as int),
    decreases s.len() - i,
{
    if i >= s.len() {
        assert(collapse_ws_from(s, i) =~= s.subrange(i, s.len() as int));
    } else if space_char(s[i]) {
        assert(space_run(s, i + 1) == i + 1);
        assert(space_run(s, i) == i + 1);
        lemma_collapse_identity_from(s, i + 1);
        assert(collapse_ws_from(s, i) =~= s.subrange(i, s.len() as int));
    } else {
        lemma_collapse_identity_from(s, i + 1);
        assert(collapse_ws_from(s, i) =~= s.subrange(i, s.len() as int));
    }
}

/// Collapsed text is single-spaced; its first character mirrors the first
/// character it was built from.
proof fn lemma_collapse_shape_from(s: Seq<char>, i: int)
    requires
        0 <= i <= s.len(),
    ensures
        single_spaced(collapse_ws_from(s, i)),
        i < s.len() ==> collapse_ws_from(s, i).len() > 0,
        i < s.len() && space_char(s[i]) ==> collapse_ws_from(s, i)[0] == ' ',
        i < s.len() && !space_char(s[i]) ==> collapse_ws_from(s, i)[0] == s[i],
    decreases s.len() - i,
{
    if i >= s.len() {
    } else if space_char(s[i]) {
        lemma_space_run(s, i);
        let w = space_run(s, i);
        lemma_collapse_shape_from(s, w);
        let rest = collapse_ws_from(s, w);
        let res = collapse_ws_from(s, i);
        assert(res == seq![' '] + rest);
        assert forall|k: int| 0 <= k < res.len() && space_char(#[trigger] res[k]) implies res[k]
            == ' ' by {
            if k > 0 {
                assert(res[k] == rest[k - 1]);
            }
        }
        assert forall|k: int| 0 <= k < res.len() - 1 && space_char(#[trigger] res[k])
            implies !space_char(res[k + 1]) by {
            if k == 0 {
                assert(rest.len() > 0);
                assert(res[1] == rest[0]);
                assert(w < s.len() && !space_char(s[w]));
            } else {
                assert(res[k] == rest[k - 1]);
                assert(res[k + 1] == rest[k]);
            }
        }
    } else {
        lemma_collapse_shape_from(s, i + 1);
        let rest = collapse_ws_from(s, i + 1);
        let res = collapse_ws_from(s, i);
        assert(res == seq![s[i]] + rest);
        assert forall|k: int| 0 <= k < res.len() && space_char(#[trigger] res[k]) implies res[k]
            == ' ' by {
            if k > 0 {
                assert(res[k] == rest[k - 1]);
            }
        }
        assert forall|k: int| 0 <= k < res.len() - 1 && space_char(#[trigger] res[k])
            implies !space_char(res[k + 1]) by {
            if k == 0 {
            } else {
                assert(res[k] == rest[k - 1]);
                assert(res[k + 1] == rest[k]);
            }
        }
    }
}

/// Trimming keeps a single-spaced text single-spaced.
proof fn lemma_trim_shape(s: Seq<char>)
    requires
        single_spaced(s),
    ensures
        single_spaced(trim_spec(s)),
        trim_spec(s).len() > 0 ==> !space_char(trim_spec(s)[0]),
        trim_spec(s).len() > 0 ==> !space_char(trim_spec(s)[trim_spec(s).len() - 1]),
{
    lemma_space_run(s, 0);
    lemma_trim_end_idx(s);
    let b = space_run(s, 0);
    let e = trim_end_idx(s);
    if b < e {
        let t = trim_spec(s);
        assert(t == s.subrange(b, e));
        assert forall|k: int| 0 <= k < t.len() && space_char(#[trigger] t[k]) implies t[k]
            == ' ' by {
            assert(t[k] == s[b + k]);
        }
        assert forall|k: int| 0 <= k < t.len() - 1 && space_char(#[trigger] t[k])
            implies !space_char(t[k + 1]) by {
            assert(t[k] == s[b + k]);
            assert(t[k + 1] == s[b + k + 1]);
        }
        assert(t[0] == s[b]);
        assert(t[t.len() - 1] == s[e - 1]);
    }
}

/// Trimming a text that opens and closes on non-whitespace changes nothing.
proof fn lemma_trim_identity(s: Seq<char>)
    requires
        s.len() > 0 ==> !space_char(s[0]),
        s.len() > 0 ==> !space_char(s[s.len() - 1]),
    ensures
        trim_spec(s) == s,
{
    lemma_space_run(s, 0);
    lemma_trim_end_idx(s);
    if s.len() == 0 {
        assert(trim_spec(s) =~= s);
    } else {
        assert(space_run(s, 0) == 0);
        assert(trim_end_idx(s) == s.len());
        assert(trim_spec(s) =~= s);
    }
}

/// Normalizing whitespace twice gives the same text as normalizing it once.
pub proof fn lemma_post_process_idempotent(s: Seq<char>)
    ensures
        post_process_spec(post_process_spec(s)) == post_process_spec(s),
{
    lemma_collapse_shape_from(s, 0);
    let y = collapse_ws(s);
    lemma_trim_shape(y);
    let z = trim_spec(y);
    lemma_collapse_identity_from(z, 0);
    assert(z.subrange(0, z.len() as int) =~= z);
    assert(collapse_ws(z) == z);
    lemma_trim_identity(z);
}

/// A text with no whitespace characters at all.
pub open spec fn no_space_text(t: Seq<char>) -> bool {
    forall|j: int| 0 <= j < t.len() ==> !space_char(#[trigger] t[j])
}

/// Joining nonempty whitespace-free pieces with single spaces yields a
/// single-spaced text that opens and closes on non-whitespace.
proof fn lemma_join_clean(ps: Seq<Seq<char>>)
    requires
        forall|k: int| 0 <= k < ps.len() ==> #[trigger] ps[k].len() >= 1,
        forall|k: int| 0 <= k < ps.len() ==> no_space_text(#[trigger] ps[k]),
    ensures
        single_spaced(join_with(ps, " "@)),
        ps.len() > 0 ==> join_with(ps, " "@).len() > 0,
        ps.len() > 0 ==> !space_char(join_with(ps, " "@)[0]),
        ps.len() > 0 ==> !space_char(join_with(ps, " "@)[join_with(ps, " "@).len() - 1]),
    decreases ps.len(),
{
    reveal_strlit(" ");
    if ps.len() == 0 {
    } else if ps.len() == 1 {
        let s = join_with(ps, " "@);
        assert(s == ps[0]);
        assert forall|k: int| 0 <= k < s.len() && space_char(#[trigger] s[k]) implies s[k]
            == ' ' by {
            assert(!space_char(ps[0][k]));
        }
        assert(!space_char(s[0]));
    } else {
        let pre = ps.drop_last();
        assert forall|k: int| 0 <= k < pre.len() implies #[trigger] pre[k].len() >= 1
            && no_space_text(pre[k]) by {
            assert(pre[k] == ps[k]);
        }
        lemma_join_clean(pre);
        let a = join_with(pre, " "@);
        let last = ps.last();
        let s = join_with(ps, " "@);
        assert(s == a + " "@ + last);
        assert(" "@.len() == 1 && " "@[0] == ' ');
        assert(a.len() > 0 && !space_char(a[a.len() - 1]));
        assert(last.len() >= 1 && no_space_text(last));
        assert(s[0] == a[0]);
        assert(s[s.len() - 1] == last[last.len() - 1]);
        assert(!space_char(last[last.len() - 1]));
        assert forall|k: int| 0 <= k < s.len() && space_char(#[trigger] s[k]) implies s[k]
            == ' ' by {
            if k < a.len() {
                assert(s[k] == a[k]);
            } else if k == a.len() {
                assert(s[k] == ' ');
            } else {
                assert(s[k] == last[k - a.len() - 1]);
                assert(!space_char(last[k - a.len() - 1]));
            }
        }
        assert forall|k: int| 0 <= k < s.len() - 1 && space_char(#[trigger] s[k])
            implies !space_char(s[k + 1]) by {
            if k + 1 < a.len() {
                assert(s[k] == a[k]);
                assert(s[k + 1] == a[k + 1]);
            } else if k + 1 == a.len() {
                assert(s[k] == a[k]);
                assert(!space_char(a[a.len() - 1]));
            } else if k == a.len() {
                assert(s[k + 1] == last[0]);
                assert(!space_char(last[0]));
            } else {
                assert(s[k] == last[k - a.len() - 1]);
                assert(!space_char(last[k - a.len() - 1]));
            }
        }
    }
}

/// Filtering against an empty filter set keeps every token.
proof fn lemma_filter_out_empty(ts: Seq<Seq<char>>)
    ensures
        filter_out(ts, Seq::empty()) == ts,
    decreases ts.len(),
{
    if ts.len() == 0 {
        assert(filter_out(ts, Seq::empty()) =~= ts);
    } else {
        lemma_filter_out_empty(ts.drop_last());
        assert(!contains_text(Seq::empty(), ts.last()));
        assert(filter_out(ts, Seq::empty()) =~= ts);
    }
}

/// With no action requested, processing rewrites nothing.
proof fn lemma_processed_values_none(ts: Seq<Seq<char>>)
    ensures
        processed_values(ts, None, None, None, None, None, None, None, None, None) == ts,
{
    assert(processed_values(ts, None, None, None, None, None, None, None, None, None) =~= ts);
}

/// Dropping empties from a sequence of nonempty texts keeps all of them.
proof fn lemma_nonempty_values_identity(ts: Seq<Seq<char>>)
    requires
        forall|k: int| 0 <= k < ts.len() ==> #[trigger] ts[k].len() >= 1,
    ensures
        nonempty_values(ts) == ts,
    decreases ts.len(),
{
    if ts.len() == 0 {
    } else {
        assert forall|k: int| 0 <= k < ts.drop_last().len() implies #[trigger] ts.drop_last()[k].len()
            >= 1 by {
            assert(ts.drop_last()[k] == ts[k]);
        }
        lemma_nonempty_values_identity(ts.drop_last());
        assert(ts.last().len() >= 1);
        assert(nonempty_values(ts) =~= ts);
    }
}

/// Dropping empties from a sequence of empty texts leaves nothing.
proof fn lemma_nonempty_values_vanish(ts: Seq<Seq<char>>)
    requires
        forall|k: int| 0 <= k < ts.len() ==> #[trigger] ts[k].len() == 0,
    ensures
        nonempty_values(ts) == Seq::<Seq<char>>::empty(),
    decreases ts.len(),
{
    if ts.len() == 0 {
        assert(nonempty_values(ts) =~= Seq::<Seq<char>>::empty());
    } else {
        assert forall|k: int| 0 <= k < ts.drop_last().len() implies #[trigger] ts.drop_last()[k].len()
            == 0 by {
            assert(ts.drop_last()[k] == ts[k]);
        }
        lemma_nonempty_values_vanish(ts.drop_last());
        assert(ts.last().len() == 0);
        assert(nonempty_values(ts) =~= Seq::<Seq<char>>::empty());
    }
}

/// Round trip: when a cleaned text is exactly its own tokens joined by
/// single spaces, and no token holds whitespace, a parse with no requested
/// actions and no filters reproduces the text verbatim.
pub proof fn lemma_clean_text_round_trip(s: Seq<char>, ps: Seq<Seq<char>>)
    requires
        tokenize_text(s) == ps,
        s == join_with(ps, " "@),
        forall|k: int| 0 <= k < ps.len() ==> no_space_text(#[trigger] ps[k]),
    ensures
        parse_value_spec(
            s,
            Seq::empty(),
            None,
            None,
            None,
            None,
            None,
            None,
            None,
            None,
            None,
        ) == s,
{
    lemma_tokenize_from_nonempty(s, 0);
    assert(forall|k: int| 0 <= k < ps.len() ==> #[trigger] ps[k].len() >= 1);
    lemma_filter_out_empty(ps);
    lemma_processed_values_none(ps);
    lemma_nonempty_values_identity(ps);
    assert(process_result(filter_out(tokenize_text(s), Seq::empty()), None, None, None, None,
        None, None, None, None, None) == ps);
    lemma_join_clean(ps);
    lemma_collapse_identity_from(s, 0);
    assert(s.subrange(0, s.len() as int) =~= s);
    assert(collapse_ws(s) == s);
    lemma_trim_identity(s);
}

/// Boundary: when processing empties every token, the joined value after
/// whitespace normalization is the empty string.
pub proof fn lemma_emptied_tokens_yield_empty_value(
    ts: Seq<Seq<char>>,
    mentions: Option<Seq<char>>,
    hashtags: Option<Seq<char>>,
    urls: Option<Seq<char>>,
    digits: Option<Seq<char>>,
    emojis: Option<Seq<char>>,
    emoticons: Option<Seq<char>>,
    puncts: Option<Seq<char>>,
    emails: Option<Seq<char>>,
    html_tags: Option<Seq<char>>,
)
    requires
        forall|k: int| 0 <= k < ts.len() ==> (#[trigger] processed_value(
            ts[k],
            mentions,
            hashtags,
            urls,
            digits,
            emojis,
            emoticons,
            puncts,
            emails,
            html_tags,
        )).len() == 0,
    ensures
        post_process_spec(
            join_with(
                process_result(
                    ts,
                    mentions,
                    hashtags,
                    urls,
                    digits,
                    emojis,
                    emoticons,
                    puncts,
                    emails,
                    html_tags,
                ),
                " "@,
            ),
        ) == Seq::<char>::empty(),
{
    let mapped = processed_values(
        ts,
        mentions,
        hashtags,
        urls,
        digits,
        emojis,
        emoticons,
        puncts,
        emails,
        html_tags,
    );
    assert(forall|k: int| 0 <= k < mapped.len() ==> #[trigger] mapped[k].len() == 0);
    lemma_nonempty_values_vanish(mapped);
    let joined = join_with(Seq::<Seq<char>>::empty(), " "@);
    assert(joined == Seq::<char>::empty());
    lemma_space_run(joined, 0);
    lemma_trim_end_idx(joined);
    assert(collapse_ws(joined) =~= Seq::<char>::empty());
    assert(post_process_spec(joined) =~= Seq::<char>::empty());
}

} // verus!
