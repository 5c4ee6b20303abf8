//! Laws of the rewriter. It leaves its own output unchanged: running it
//! twice is running it once (each lemma follows one scanner state of the
//! first pass and shows the second pass, reading that state's output,
//! gives the same output back). And it keeps every line: the output has
//! as many line feeds as the input.
use vstd::prelude::*;

use crate::normalise::{
    brace_escape, is_ascii_ws, norm_after_lt, norm_attr_name, norm_attrs, norm_brace, norm_comment,
    norm_quoted, norm_tag_name, norm_text, norm_unquoted, norm_value_ws, norm_verbatim,
    spec_is_attr_name_end, spec_is_tag_name_end, spec_normalise, true_value,
};

verus! {

/// What is left of `t` from position `j` on.
pub open spec fn rest_of(t: Seq<char>, j: int) -> Seq<char> {
    t.subrange(j, t.len() as int)
}

proof fn lemma_rest(t: Seq<char>, j: int, a: Seq<char>, rest: Seq<char>)
    requires
        0 <= j <= t.len(),
        rest_of(t, j) == a + rest,
    ensures
        j + a.len() <= t.len(),
        forall|k: int| 0 <= k < a.len() ==> t[j + k] == #[trigger] a[k],
        a.len() > 0 ==> t[j] == a[0],
        a.len() > 1 ==> t[j + 1] == a[1],
        a.len() > 2 ==> t[j + 2] == a[2],
        a.len() > 3 ==> t[j + 3] == a[3],
        a.len() > 4 ==> t[j + 4] == a[4],
        a.len() > 5 ==> t[j + 5] == a[5],
        a.len() > 6 ==> t[j + 6] == a[6],
        rest_of(t, j + a.len()) == rest,
        rest_of(t, j).len() == t.len() - j,
{
    assert((a + rest).len() == t.len() - j);
    assert forall|k: int| 0 <= k < a.len() implies t[j + k] == #[trigger] a[k] by {
        assert(rest_of(t, j)[k] == (a + rest)[k]);
    }
    if a.len() > 0 { assert(t[j + 0] == a[0]); }
    if a.len() > 1 { assert(t[j + 1] == a[1]); }
    if a.len() > 2 { assert(t[j + 2] == a[2]); }
    if a.len() > 3 { assert(t[j + 3] == a[3]); }
    if a.len() > 4 { assert(t[j + 4] == a[4]); }
    if a.len() > 5 { assert(t[j + 5] == a[5]); }
    if a.len() > 6 { assert(t[j + 6] == a[6]); }
    assert(rest_of(t, j + a.len()) =~= rest) by {
        assert forall|k: int| 0 <= k < rest.len() implies rest_of(t, j + a.len())[k] == rest[k] by {
            assert(rest_of(t, j)[a.len() + k] == (a + rest)[a.len() + k]);
        }
    }
}

/// Inside a quoted value, characters other than the quote and `\`
/// are copied one by one.
proof fn lemma_quoted_copies(t: Seq<char>, j: int, q: char, a: Seq<char>, rest: Seq<char>)
    requires
        0 <= j <= t.len(),
        rest_of(t, j) == a + rest,
        forall|k: int| 0 <= k < a.len() ==> #[trigger] a[k] != q && a[k] != '\\',
    ensures
        norm_quoted(t, j, q) == a + norm_quoted(t, j + a.len(), q),
    decreases a.len(),
{
    lemma_rest(t, j, a, rest);
    if a.len() > 0 {
        assert(a[0] != q && a[0] != '\\');
        assert(t[j] == a[0]);
        let b = a.drop_first();
        assert(a =~= seq![a[0]] + b);
        assert(rest_of(t, j) =~= seq![a[0]] + (b + rest));
        lemma_rest(t, j, seq![a[0]], b + rest);
        lemma_quoted_copies(t, j + 1, q, b, rest);
        assert(a + norm_quoted(t, j + a.len(), q) =~= seq![a[0]] + (b + norm_quoted(t, j + 1 + b.len(), q)));
    }
}

proof fn lemma_text(s: Seq<char>, i: int, t: Seq<char>, j: int)
    requires
        0 <= i <= s.len(),
        0 <= j <= t.len(),
        rest_of(t, j) == norm_text(s, i),
    ensures
        norm_text(t, j) == norm_text(s, i),
    decreases s.len() - i, 10int,
{
    if i < s.len() {
        if s[i] == '<' {
            lemma_rest(t, j, seq!['<'], norm_after_lt(s, i + 1));
            lemma_after_lt(s, i + 1, t, j + 1);
        } else {
            lemma_rest(t, j, seq![s[i]], norm_text(s, i + 1));
            lemma_text(s, i + 1, t, j + 1);
        }
    } else {
        assert(rest_of(t, j).len() == 0);
    }
}

proof fn lemma_after_lt(s: Seq<char>, i: int, t: Seq<char>, j: int)
    requires
        0 <= i <= s.len(),
        0 <= j <= t.len(),
        rest_of(t, j) == norm_after_lt(s, i),
    ensures
        norm_after_lt(t, j) == norm_after_lt(s, i),
    decreases s.len() - i, 9int,
{
    if i + 3 < s.len() && s[i] == '!' && s[i + 1] == '-' && s[i + 2] == '-' {
        let c = norm_comment(s, i + 3);
        assert(c.len() > 0);
        lemma_rest(t, j, seq!['!', '-', '-'], c);
        assert(t[j] == '!' && t[j + 1] == '-' && t[j + 2] == '-');
        lemma_comment(s, i + 3, t, j + 3);
    } else if i < s.len() && (s[i] == '?' || s[i] == '!' || s[i] == '/') {
        let v1 = norm_verbatim(s, i + 1);
        assert(norm_after_lt(s, i) == norm_verbatim(s, i));
        assert(norm_verbatim(s, i) == seq![s[i]] + v1);
        lemma_rest(t, j, seq![s[i]], v1);
        if s[i] == '!' {
            if i + 1 < s.len() {
                let v1_first = if s[i + 1] == '>' {
                    seq!['>'] + norm_text(s, i + 2)
                } else {
                    seq![s[i + 1]] + norm_verbatim(s, i + 2)
                };
                assert(v1 == v1_first);
                assert(seq![s[i + 1]] + v1_first.drop_first() =~= v1_first);
                lemma_rest(t, j + 1, seq![s[i + 1]], v1_first.drop_first());
                if s[i + 1] == '-' {
                    let v2 = norm_verbatim(s, i + 2);
                    if i + 2 < s.len() {
                        let v2_first = if s[i + 2] == '>' {
                            seq!['>'] + norm_text(s, i + 3)
                        } else {
                            seq![s[i + 2]] + norm_verbatim(s, i + 3)
                        };
                        assert(v2 == v2_first);
                        assert(v1_first.drop_first() =~= v2);
                        assert(seq![s[i + 2]] + v2_first.drop_first() =~= v2_first);
                        lemma_rest(t, j + 2, seq![s[i + 2]], v2_first.drop_first());
                        if s[i + 2] == '-' {
                            assert(i + 3 == s.len());
                            assert(norm_verbatim(s, i + 3).len() == 0);
                            assert(t.len() == j + 3);
                        }
                    } else {
                        assert(v2.len() == 0);
                        assert(t.len() == j + 2);
                    }
                }
            } else {
                assert(v1.len() == 0);
                assert(t.len() == j + 1);
            }
        }
        assert(norm_after_lt(t, j) == norm_verbatim(t, j));
        lemma_verbatim(s, i, t, j);
    } else {
        assert(norm_after_lt(s, i) == norm_tag_name(s, i));
        if i < s.len() {
            if spec_is_tag_name_end(s[i]) {
                assert(s[i] != '/');
                assert(norm_tag_name(s, i) == norm_attrs(s, i));
                if s[i] == '>' {
                    assert(norm_attrs(s, i) == seq!['>'] + norm_text(s, i + 1));
                    lemma_rest(t, j, seq!['>'], norm_text(s, i + 1));
                } else {
                    assert(norm_attrs(s, i) == seq![s[i]] + norm_attrs(s, i + 1));
                    lemma_rest(t, j, seq![s[i]], norm_attrs(s, i + 1));
                }
            } else {
                assert(norm_tag_name(s, i) == seq![s[i]] + norm_tag_name(s, i + 1));
                lemma_rest(t, j, seq![s[i]], norm_tag_name(s, i + 1));
            }
            assert(t[j] != '!' && t[j] != '?' && t[j] != '/');
        } else {
            assert(norm_tag_name(s, i) == norm_attrs(s, i));
            assert(norm_attrs(s, i) == Seq::<char>::empty());
            assert(rest_of(t, j).len() == 0);
        }
        assert(norm_after_lt(t, j) == norm_tag_name(t, j));
        lemma_tag_name(s, i, t, j);
    }
}

proof fn lemma_comment(s: Seq<char>, i: int, t: Seq<char>, j: int)
    requires
        0 <= i <= s.len(),
        0 <= j <= t.len(),
        rest_of(t, j) == norm_comment(s, i),
    ensures
        norm_comment(t, j) == norm_comment(s, i),
    decreases s.len() - i, 8int,
{
    if i < s.len() {
        if s[i] == '-' && i + 2 < s.len() && s[i + 1] == '-' && s[i + 2] == '>' {
            lemma_rest(t, j, seq!['-', '-', '>'], norm_text(s, i + 3));
            lemma_text(s, i + 3, t, j + 3);
        } else {
            let c1 = norm_comment(s, i + 1);
            lemma_rest(t, j, seq![s[i]], c1);
            if s[i] == '-' {
                if i + 1 < s.len() {
                    assert(c1.len() >= 1);
                    assert(c1[0] == s[i + 1]);
                    assert(t[j + 1] == c1[0]) by {
                        assert(rest_of(t, j)[1] == (seq![s[i]] + c1)[1]);
                    }
                    if s[i + 1] == '-' {
                        if i + 2 < s.len() {
                            assert(s[i + 2] != '>');
                            assert(c1.len() >= 2) by {
                                if !(i + 3 < s.len() && s[i + 2] == '-' && s[i + 3] == '>') {
                                    assert(c1 == seq![s[i + 1]] + norm_comment(s, i + 2));
                                    assert(norm_comment(s, i + 2).len() >= 1);
                                }
                            }
                            assert(c1[1] == s[i + 2]) by {
                                if !(i + 3 < s.len() && s[i + 2] == '-' && s[i + 3] == '>') {
                                    assert(c1 == seq![s[i + 1]] + norm_comment(s, i + 2));
                                    assert(norm_comment(s, i + 2)[0] == s[i + 2]);
                                }
                            }
                            assert(t[j + 2] == c1[1]) by {
                                assert(rest_of(t, j)[2] == (seq![s[i]] + c1)[2]);
                            }
                        } else {
                            assert(norm_comment(s, i + 2).len() == 0);
                            assert(c1 == seq![s[i + 1]]);
                            assert(t.len() == j + 2);
                        }
                    }
                } else {
                    assert(c1.len() == 0);
                    assert(t.len() == j + 1);
                }
            }
            lemma_comment(s, i + 1, t, j + 1);
        }
    } else {
        assert(rest_of(t, j).len() == 0);
    }
}

proof fn lemma_verbatim(s: Seq<char>, i: int, t: Seq<char>, j: int)
    requires
        0 <= i <= s.len(),
        0 <= j <= t.len(),
        rest_of(t, j) == norm_verbatim(s, i),
    ensures
        norm_verbatim(t, j) == norm_verbatim(s, i),
    decreases s.len() - i, 4int,
{
    if i < s.len() {
        if s[i] == '>' {
            lemma_rest(t, j, seq!['>'], norm_text(s, i + 1));
            lemma_text(s, i + 1, t, j + 1);
        } else {
            lemma_rest(t, j, seq![s[i]], norm_verbatim(s, i + 1));
            lemma_verbatim(s, i + 1, t, j + 1);
        }
    } else {
        assert(rest_of(t, j).len() == 0);
    }
}

proof fn lemma_tag_name(s: Seq<char>, i: int, t: Seq<char>, j: int)
    requires
        0 <= i <= s.len(),
        0 <= j <= t.len(),
        rest_of(t, j) == norm_tag_name(s, i),
    ensures
        norm_tag_name(t, j) == norm_tag_name(s, i),
    decreases s.len() - i, 6int,
{
    if i < s.len() && !spec_is_tag_name_end(s[i]) {
        lemma_rest(t, j, seq![s[i]], norm_tag_name(s, i + 1));
        lemma_tag_name(s, i + 1, t, j + 1);
    } else {
        assert(norm_tag_name(s, i) == norm_attrs(s, i));
        if i < s.len() {
            if s[i] == '>' {
                assert(norm_attrs(s, i) == seq!['>'] + norm_text(s, i + 1));
                lemma_rest(t, j, seq!['>'], norm_text(s, i + 1));
            } else {
                assert(norm_attrs(s, i) == seq![s[i]] + norm_attrs(s, i + 1));
                lemma_rest(t, j, seq![s[i]], norm_attrs(s, i + 1));
            }
        } else {
            assert(norm_attrs(s, i) == Seq::<char>::empty());
            assert(rest_of(t, j).len() == 0);
        }
        assert(norm_tag_name(t, j) == norm_attrs(t, j));
        lemma_attrs(s, i, t, j);
    }
}

proof fn lemma_attrs(s: Seq<char>, i: int, t: Seq<char>, j: int)
    requires
        0 <= i <= s.len(),
        0 <= j <= t.len(),
        rest_of(t, j) == norm_attrs(s, i),
    ensures
        norm_attrs(t, j) == norm_attrs(s, i),
    decreases s.len() - i, 5int,
{
    if i < s.len() {
        if s[i] == '>' {
            lemma_rest(t, j, seq!['>'], norm_text(s, i + 1));
            lemma_text(s, i + 1, t, j + 1);
        } else if is_ascii_ws(s[i]) || s[i] == '/' {
            lemma_rest(t, j, seq![s[i]], norm_attrs(s, i + 1));
            lemma_attrs(s, i + 1, t, j + 1);
        } else if s[i] == '=' {
            lemma_rest(t, j, seq!['='], norm_value_ws(s, i + 1));
            lemma_value_ws(s, i + 1, t, j + 1);
        } else {
            lemma_rest(t, j, seq![s[i]], norm_attr_name(s, i + 1));
            lemma_attr_name(s, i + 1, t, j + 1);
        }
    } else {
        assert(rest_of(t, j).len() == 0);
    }
}

proof fn lemma_attr_name(s: Seq<char>, i: int, t: Seq<char>, j: int)
    requires
        0 <= i <= s.len(),
        0 <= j <= t.len(),
        rest_of(t, j) == norm_attr_name(s, i),
    ensures
        norm_attr_name(t, j) == norm_attr_name(s, i),
    decreases s.len() - i, 6int,
{
    if i < s.len() && !spec_is_attr_name_end(s[i]) {
        lemma_rest(t, j, seq![s[i]], norm_attr_name(s, i + 1));
        lemma_attr_name(s, i + 1, t, j + 1);
    } else if i < s.len() && s[i] == '=' {
        lemma_rest(t, j, seq!['='], norm_value_ws(s, i + 1));
        lemma_value_ws(s, i + 1, t, j + 1);
    } else {
        let rest = norm_attrs(s, i);
        assert(true_value() + rest =~= seq!['=', '"'] + (seq!['t', 'r', 'u', 'e'] + (seq!['"'] + rest)));
        lemma_rest(t, j, seq!['=', '"'], seq!['t', 'r', 'u', 'e'] + (seq!['"'] + rest));
        lemma_quoted_copies(t, j + 2, '"', seq!['t', 'r', 'u', 'e'], seq!['"'] + rest);
        lemma_rest(t, j + 2, seq!['t', 'r', 'u', 'e'], seq!['"'] + rest);
        lemma_rest(t, j + 6, seq!['"'], rest);
        lemma_attrs(s, i, t, j + 7);
        assert(norm_value_ws(t, j + 1) == seq!['"'] + norm_quoted(t, j + 2, '"'));
        assert(norm_quoted(t, j + 6, '"') == seq!['"'] + norm_attrs(t, j + 7));
        assert(norm_attr_name(t, j) =~= true_value() + rest);
    }
}

proof fn lemma_value_ws(s: Seq<char>, i: int, t: Seq<char>, j: int)
    requires
        0 <= i <= s.len(),
        0 <= j <= t.len(),
        rest_of(t, j) == norm_value_ws(s, i),
    ensures
        norm_value_ws(t, j) == norm_value_ws(s, i),
    decreases s.len() - i, 8int,
{
    if i < s.len() {
        if is_ascii_ws(s[i]) {
            lemma_rest(t, j, seq![s[i]], norm_value_ws(s, i + 1));
            lemma_value_ws(s, i + 1, t, j + 1);
        } else if s[i] == '{' {
            let b = norm_brace(s, i + 1, 1);
            assert(seq!['"', '{'] + b =~= seq!['"'] + (seq!['{'] + b));
            lemma_rest(t, j, seq!['"'], seq!['{'] + b);
            lemma_rest(t, j + 1, seq!['{'], b);
            lemma_brace(s, i + 1, 1, t, j + 2);
            assert(norm_quoted(t, j + 1, '"') == seq!['{'] + norm_quoted(t, j + 2, '"'));
            assert(norm_value_ws(t, j) =~= seq!['"', '{'] + b);
        } else if s[i] == '"' || s[i] == '\'' {
            lemma_rest(t, j, seq![s[i]], norm_quoted(s, i + 1, s[i]));
            lemma_quoted(s, i + 1, s[i], t, j + 1);
        } else {
            assert(norm_value_ws(s, i) == norm_unquoted(s, i));
            if s[i] != '>' {
                assert(norm_unquoted(s, i) == seq![s[i]] + norm_unquoted(s, i + 1));
                lemma_rest(t, j, seq![s[i]], norm_unquoted(s, i + 1));
            } else {
                assert(norm_unquoted(s, i) == norm_attrs(s, i));
                assert(norm_attrs(s, i) == seq!['>'] + norm_text(s, i + 1));
                lemma_rest(t, j, seq!['>'], norm_text(s, i + 1));
            }
            assert(norm_value_ws(t, j) == norm_unquoted(t, j));
            lemma_unquoted(s, i, t, j);
        }
    } else {
        assert(rest_of(t, j).len() == 0);
    }
}

proof fn lemma_unquoted(s: Seq<char>, i: int, t: Seq<char>, j: int)
    requires
        0 <= i <= s.len(),
        0 <= j <= t.len(),
        rest_of(t, j) == norm_unquoted(s, i),
    ensures
        norm_unquoted(t, j) == norm_unquoted(s, i),
    decreases s.len() - i, 6int,
{
    if i < s.len() && !is_ascii_ws(s[i]) && s[i] != '>' {
        lemma_rest(t, j, seq![s[i]], norm_unquoted(s, i + 1));
        lemma_unquoted(s, i + 1, t, j + 1);
    } else {
        assert(norm_unquoted(s, i) == norm_attrs(s, i));
        if i < s.len() {
            if s[i] == '>' {
                assert(norm_attrs(s, i) == seq!['>'] + norm_text(s, i + 1));
                lemma_rest(t, j, seq!['>'], norm_text(s, i + 1));
            } else {
                assert(norm_attrs(s, i) == seq![s[i]] + norm_attrs(s, i + 1));
                lemma_rest(t, j, seq![s[i]], norm_attrs(s, i + 1));
            }
        } else {
            assert(norm_attrs(s, i) == Seq::<char>::empty());
            assert(rest_of(t, j).len() == 0);
        }
        assert(norm_unquoted(t, j) == norm_attrs(t, j));
        lemma_attrs(s, i, t, j);
    }
}

proof fn lemma_quoted(s: Seq<char>, i: int, q: char, t: Seq<char>, j: int)
    requires
        0 <= i <= s.len(),
        0 <= j <= t.len(),
        rest_of(t, j) == norm_quoted(s, i, q),
    ensures
        norm_quoted(t, j, q) == norm_quoted(s, i, q),
    decreases s.len() - i, 7int,
{
    if i < s.len() {
        if s[i] == q {
            lemma_rest(t, j, seq![q], norm_attrs(s, i + 1));
            lemma_attrs(s, i + 1, t, j + 1);
        } else if s[i] == '\\' && i + 1 < s.len() {
            lemma_rest(t, j, seq![s[i], s[i + 1]], norm_quoted(s, i + 2, q));
            lemma_quoted(s, i + 2, q, t, j + 2);
        } else {
            lemma_rest(t, j, seq![s[i]], norm_quoted(s, i + 1, q));
            if s[i] == '\\' {
                assert(norm_quoted(s, i + 1, q) == norm_attrs(s, i + 1));
                assert(norm_attrs(s, i + 1) == Seq::<char>::empty());
                assert(t.len() == j + 1);
            }
            lemma_quoted(s, i + 1, q, t, j + 1);
        }
    } else {
        assert(norm_quoted(s, i, q) == norm_attrs(s, i));
        assert(norm_attrs(s, i) == Seq::<char>::empty());
        assert(rest_of(t, j).len() == 0);
        assert(norm_quoted(t, j, q) == norm_attrs(t, j));
    }
}

/// Inside a brace expression: the second pass reads the value it was
/// turned into as a `"`-quoted one.
proof fn lemma_brace(s: Seq<char>, i: int, d: nat, t: Seq<char>, j: int)
    requires
        0 <= i <= s.len(),
        0 <= j <= t.len(),
        d >= 1,
        rest_of(t, j) == norm_brace(s, i, d),
    ensures
        norm_quoted(t, j, '"') == norm_brace(s, i, d),
    decreases s.len() - i, 7int,
{
    if i >= s.len() {
        assert(norm_attrs(s, i) == Seq::<char>::empty());
        lemma_rest(t, j, seq!['"'], norm_attrs(s, i));
        assert(t.len() == j + 1);
        assert(norm_attrs(t, j + 1) == Seq::<char>::empty());
        assert(norm_quoted(t, j, '"') == seq!['"'] + norm_attrs(t, j + 1));
        assert(norm_quoted(t, j, '"') =~= norm_brace(s, i, d));
    } else if s[i] == '{' {
        lemma_rest(t, j, seq!['{'], norm_brace(s, i + 1, d + 1));
        lemma_brace(s, i + 1, d + 1, t, j + 1);
    } else if s[i] == '}' {
        if d == 1 {
            assert(seq!['}', '"'] + norm_attrs(s, i + 1) =~= seq!['}'] + (seq!['"'] + norm_attrs(s, i + 1)));
            lemma_rest(t, j, seq!['}'], seq!['"'] + norm_attrs(s, i + 1));
            lemma_rest(t, j + 1, seq!['"'], norm_attrs(s, i + 1));
            lemma_attrs(s, i + 1, t, j + 2);
            assert(norm_quoted(t, j + 1, '"') == seq!['"'] + norm_attrs(t, j + 2));
            assert(norm_quoted(t, j, '"') =~= norm_brace(s, i, d));
        } else {
            lemma_rest(t, j, seq!['}'], norm_brace(s, i + 1, (d - 1) as nat));
            lemma_brace(s, i + 1, (d - 1) as nat, t, j + 1);
        }
    } else if s[i] == '\\' {
        lemma_rest(t, j, seq!['\\'], norm_brace(s, i + 1, d));
        lemma_brace_after_escape(s, i + 1, d, t, j + 1);
    } else {
        let e = brace_escape(s[i]);
        assert(forall|k: int| 0 <= k < e.len() ==> #[trigger] e[k] != '"' && e[k] != '\\');
        lemma_quoted_copies(t, j, '"', e, norm_brace(s, i + 1, d));
        lemma_rest(t, j, e, norm_brace(s, i + 1, d));
        lemma_brace(s, i + 1, d, t, j + e.len());
        assert(norm_brace(s, i, d) == e + norm_brace(s, i + 1, d));
    }
}

/// Inside a brace expression, just after a `\`: the second pass takes
/// the next output character together with that `\`.
proof fn lemma_brace_after_escape(s: Seq<char>, i: int, d: nat, t: Seq<char>, j: int)
    requires
        0 <= i <= s.len(),
        1 <= j <= t.len(),
        d >= 1,
        rest_of(t, j) == norm_brace(s, i, d),
        t[j - 1] == '\\',
    ensures
        j < t.len(),
        norm_quoted(t, j - 1, '"') == seq!['\\'] + norm_brace(s, i, d),
    decreases s.len() - i, 7int,
{
    if i >= s.len() {
        lemma_rest(t, j, seq!['"'], norm_attrs(s, i));
        assert(t.len() == j + 1);
        assert(norm_quoted(t, j + 1, '"') == norm_attrs(t, j + 1));
        assert(norm_quoted(t, j - 1, '"') =~= seq!['\\', '"']);
    } else if s[i] == '{' {
        lemma_rest(t, j, seq!['{'], norm_brace(s, i + 1, d + 1));
        lemma_brace(s, i + 1, d + 1, t, j + 1);
        assert(norm_quoted(t, j - 1, '"') =~= seq!['\\', '{'] + norm_quoted(t, j + 1, '"'));
    } else if s[i] == '}' {
        if d == 1 {
            assert(seq!['}', '"'] + norm_attrs(s, i + 1) =~= seq!['}'] + (seq!['"'] + norm_attrs(s, i + 1)));
            lemma_rest(t, j, seq!['}'], seq!['"'] + norm_attrs(s, i + 1));
            lemma_rest(t, j + 1, seq!['"'], norm_attrs(s, i + 1));
            lemma_attrs(s, i + 1, t, j + 2);
            assert(norm_quoted(t, j + 1, '"') == seq!['"'] + norm_attrs(t, j + 2));
            assert(norm_quoted(t, j - 1, '"') =~= seq!['\\', '}'] + norm_quoted(t, j + 1, '"'));
        } else {
            lemma_rest(t, j, seq!['}'], norm_brace(s, i + 1, (d - 1) as nat));
            lemma_brace(s, i + 1, (d - 1) as nat, t, j + 1);
            assert(norm_quoted(t, j - 1, '"') =~= seq!['\\', '}'] + norm_quoted(t, j + 1, '"'));
        }
    } else {
        let e = brace_escape(s[i]);
        let rest = norm_brace(s, i + 1, d);
        assert(e.len() >= 1);
        let tail = e.drop_first();
        assert(e =~= seq![e[0]] + tail);
        assert(rest_of(t, j) =~= seq![e[0]] + (tail + rest));
        lemma_rest(t, j, seq![e[0]], tail + rest);
        assert(forall|k: int| 0 <= k < tail.len() ==> #[trigger] tail[k] != '"' && tail[k] != '\\');
        lemma_quoted_copies(t, j + 1, '"', tail, rest);
        lemma_rest(t, j + 1, tail, rest);
        lemma_brace(s, i + 1, d, t, j + 1 + tail.len());
        assert(norm_quoted(t, j - 1, '"') =~= seq!['\\', e[0]] + norm_quoted(t, j + 1, '"'));
        assert(seq!['\\'] + (e + rest) =~= seq!['\\', e[0]] + (tail + rest));
    }
}

/// Rewriting is idempotent: the rewriter's output is already in the
/// form it produces, so a second pass changes nothing.
pub proof fn lemma_normalise_idempotent(s: Seq<char>)
    ensures
        spec_normalise(spec_normalise(s)) == spec_normalise(s),
{
    let t = norm_text(s, 0);
    assert(rest_of(t, 0) =~= t);
    lemma_text(s, 0, t, 0);
}

/// The number of line feeds in `s`.
pub open spec fn line_feeds(s: Seq<char>) -> nat
    decreases s.len(),
{
    if s.len() == 0 {
        0
    } else {
        (if s[0] == '\n' { 1nat } else { 0nat }) + line_feeds(s.drop_first())
    }
}

proof fn lemma_feeds_concat(a: Seq<char>, b: Seq<char>)
    ensures
        line_feeds(a + b) == line_feeds(a) + line_feeds(b),
    decreases a.len(),
{
    if a.len() > 0 {
        assert((a + b).drop_first() =~= a.drop_first() + b);
        lemma_feeds_concat(a.drop_first(), b);
    } else {
        assert(a + b =~= b);
    }
}

/// One step along the input: the character at `i`, then the rest.
proof fn lemma_feeds_step(s: Seq<char>, i: int)
    requires
        0 <= i < s.len(),
    ensures
        line_feeds(rest_of(s, i)) == (if s[i] == '\n' { 1nat } else { 0nat }) + line_feeds(rest_of(s, i + 1)),
{
    assert(rest_of(s, i).drop_first() =~= rest_of(s, i + 1));
}

proof fn lemma_feeds_lit(c: Seq<char>, rest: Seq<char>)
    requires
        forall|k: int| 0 <= k < c.len() ==> #[trigger] c[k] != '\n',
    ensures
        line_feeds(c + rest) == line_feeds(rest),
    decreases c.len(),
{
    lemma_feeds_concat(c, rest);
    lemma_feeds_none(c);
}

proof fn lemma_feeds_none(c: Seq<char>)
    requires
        forall|k: int| 0 <= k < c.len() ==> #[trigger] c[k] != '\n',
    ensures
        line_feeds(c) == 0,
    decreases c.len(),
{
    if c.len() > 0 {
        assert(c[0] != '\n');
        assert forall|k: int| 0 <= k < c.drop_first().len() implies #[trigger] c.drop_first()[k] != '\n' by {
            assert(c.drop_first()[k] == c[k + 1]);
        }
        lemma_feeds_none(c.drop_first());
    }
}

proof fn lemma_feeds_char(c: char, rest: Seq<char>)
    ensures
        line_feeds(seq![c] + rest) == (if c == '\n' { 1nat } else { 0nat }) + line_feeds(rest),
{
    assert((seq![c] + rest).drop_first() =~= rest);
}

proof fn lemma_feeds_end(s: Seq<char>, i: int)
    requires
        i >= s.len(),
        i <= s.len(),
    ensures
        line_feeds(rest_of(s, i)) == 0,
{
    assert(rest_of(s, i).len() == 0);
}

proof fn feeds_text(s: Seq<char>, i: int)
    requires
        0 <= i <= s.len(),
    ensures
        line_feeds(norm_text(s, i)) == line_feeds(rest_of(s, i)),
    decreases s.len() - i, 10int,
{
    if i < s.len() {
        lemma_feeds_step(s, i);
        if s[i] == '<' {
            lemma_feeds_char('<', norm_after_lt(s, i + 1));
            feeds_after_lt(s, i + 1);
        } else {
            lemma_feeds_char(s[i], norm_text(s, i + 1));
            feeds_text(s, i + 1);
        }
    } else {
        lemma_feeds_end(s, i);
    }
}

proof fn feeds_after_lt(s: Seq<char>, i: int)
    requires
        0 <= i <= s.len(),
    ensures
        line_feeds(norm_after_lt(s, i)) == line_feeds(rest_of(s, i)),
    decreases s.len() - i, 9int,
{
    if i + 3 < s.len() && s[i] == '!' && s[i + 1] == '-' && s[i + 2] == '-' {
        lemma_feeds_lit(seq!['!', '-', '-'], norm_comment(s, i + 3));
        lemma_feeds_step(s, i);
        lemma_feeds_step(s, i + 1);
        lemma_feeds_step(s, i + 2);
        feeds_comment(s, i + 3);
    } else if i < s.len() && (s[i] == '?' || s[i] == '!' || s[i] == '/') {
        feeds_verbatim(s, i);
    } else {
        feeds_tag_name(s, i);
    }
}

proof fn feeds_comment(s: Seq<char>, i: int)
    requires
        0 <= i <= s.len(),
    ensures
        line_feeds(norm_comment(s, i)) == line_feeds(rest_of(s, i)),
    decreases s.len() - i, 8int,
{
    if i < s.len() {
        lemma_feeds_step(s, i);
        if s[i] == '-' && i + 2 < s.len() && s[i + 1] == '-' && s[i + 2] == '>' {
            lemma_feeds_lit(seq!['-', '-', '>'], norm_text(s, i + 3));
            lemma_feeds_step(s, i + 1);
            lemma_feeds_step(s, i + 2);
            feeds_text(s, i + 3);
        } else {
            lemma_feeds_char(s[i], norm_comment(s, i + 1));
            feeds_comment(s, i + 1);
        }
    } else {
        lemma_feeds_end(s, i);
    }
}

proof fn feeds_verbatim(s: Seq<char>, i: int)
    requires
        0 <= i <= s.len(),
    ensures
        line_feeds(norm_verbatim(s, i)) == line_feeds(rest_of(s, i)),
    decreases s.len() - i, 4int,
{
    if i < s.len() {
        lemma_feeds_step(s, i);
        if s[i] == '>' {
            lemma_feeds_char('>', norm_text(s, i + 1));
            feeds_text(s, i + 1);
        } else {
            lemma_feeds_char(s[i], norm_verbatim(s, i + 1));
            feeds_verbatim(s, i + 1);
        }
    } else {
        lemma_feeds_end(s, i);
    }
}

proof fn feeds_tag_name(s: Seq<char>, i: int)
    requires
        0 <= i <= s.len(),
    ensures
        line_feeds(norm_tag_name(s, i)) == line_feeds(rest_of(s, i)),
    decreases s.len() - i, 6int,
{
    if i < s.len() && !spec_is_tag_name_end(s[i]) {
        lemma_feeds_step(s, i);
        lemma_feeds_char(s[i], norm_tag_name(s, i + 1));
        feeds_tag_name(s, i + 1);
    } else {
        feeds_attrs(s, i);
    }
}

proof fn feeds_attrs(s: Seq<char>, i: int)
    requires
        0 <= i <= s.len(),
    ensures
        line_feeds(norm_attrs(s, i)) == line_feeds(rest_of(s, i)),
    decreases s.len() - i, 5int,
{
    if i < s.len() {
        lemma_feeds_step(s, i);
        if s[i] == '>' {
            lemma_feeds_char('>', norm_text(s, i + 1));
            feeds_text(s, i + 1);
        } else if is_ascii_ws(s[i]) || s[i] == '/' {
            lemma_feeds_char(s[i], norm_attrs(s, i + 1));
            feeds_attrs(s, i + 1);
        } else if s[i] == '=' {
            lemma_feeds_char('=', norm_value_ws(s, i + 1));
            feeds_value_ws(s, i + 1);
        } else {
            lemma_feeds_char(s[i], norm_attr_name(s, i + 1));
            feeds_attr_name(s, i + 1);
        }
    } else {
        lemma_feeds_end(s, i);
    }
}

proof fn feeds_attr_name(s: Seq<char>, i: int)
    requires
        0 <= i <= s.len(),
    ensures
        line_feeds(norm_attr_name(s, i)) == line_feeds(rest_of(s, i)),
    decreases s.len() - i, 6int,
{
    if i < s.len() && !spec_is_attr_name_end(s[i]) {
        lemma_feeds_step(s, i);
        lemma_feeds_char(s[i], norm_attr_name(s, i + 1));
        feeds_attr_name(s, i + 1);
    } else if i < s.len() && s[i] == '=' {
        lemma_feeds_step(s, i);
        lemma_feeds_char('=', norm_value_ws(s, i + 1));
        feeds_value_ws(s, i + 1);
    } else {
        lemma_feeds_lit(true_value(), norm_attrs(s, i));
        feeds_attrs(s, i);
    }
}

proof fn feeds_value_ws(s: Seq<char>, i: int)
    requires
        0 <= i <= s.len(),
    ensures
        line_feeds(norm_value_ws(s, i)) == line_feeds(rest_of(s, i)),
    decreases s.len() - i, 8int,
{
    if i < s.len() {
        lemma_feeds_step(s, i);
        if is_ascii_ws(s[i]) {
            lemma_feeds_char(s[i], norm_value_ws(s, i + 1));
            feeds_value_ws(s, i + 1);
        } else if s[i] == '{' {
            lemma_feeds_lit(seq!['"', '{'], norm_brace(s, i + 1, 1));
            feeds_brace(s, i + 1, 1);
        } else if s[i] == '"' || s[i] == '\'' {
            lemma_feeds_char(s[i], norm_quoted(s, i + 1, s[i]));
            feeds_quoted(s, i + 1, s[i]);
        } else {
            feeds_unquoted(s, i);
        }
    } else {
        lemma_feeds_end(s, i);
    }
}

proof fn feeds_brace(s: Seq<char>, i: int, d: nat)
    requires
        0 <= i <= s.len(),
    ensures
        line_feeds(norm_brace(s, i, d)) == line_feeds(rest_of(s, i)),
    decreases s.len() - i, 7int,
{
    if i >= s.len() || d == 0 {
        lemma_feeds_char('"', norm_attrs(s, i));
        feeds_attrs(s, i);
    } else {
        lemma_feeds_step(s, i);
        if s[i] == '{' {
            lemma_feeds_char('{', norm_brace(s, i + 1, d + 1));
            feeds_brace(s, i + 1, d + 1);
        } else if s[i] == '}' {
            if d == 1 {
                lemma_feeds_lit(seq!['}', '"'], norm_attrs(s, i + 1));
                feeds_attrs(s, i + 1);
            } else {
                lemma_feeds_char('}', norm_brace(s, i + 1, (d - 1) as nat));
                feeds_brace(s, i + 1, (d - 1) as nat);
            }
        } else {
            let e = brace_escape(s[i]);
            lemma_feeds_concat(e, norm_brace(s, i + 1, d));
            if s[i] == '\n' {
                assert(e == seq!['\n']);
                lemma_feeds_char('\n', Seq::<char>::empty());
                assert(seq!['\n'] + Seq::<char>::empty() =~= e);
                assert(Seq::<char>::empty().len() == 0);
            } else {
                lemma_feeds_none(e);
            }
            feeds_brace(s, i + 1, d);
        }
    }
}

proof fn feeds_quoted(s: Seq<char>, i: int, q: char)
    requires
        0 <= i <= s.len(),
    ensures
        line_feeds(norm_quoted(s, i, q)) == line_feeds(rest_of(s, i)),
    decreases s.len() - i, 7int,
{
    if i < s.len() {
        lemma_feeds_step(s, i);
        if s[i] == q {
            lemma_feeds_char(q, norm_attrs(s, i + 1));
            feeds_attrs(s, i + 1);
        } else if s[i] == '\\' && i + 1 < s.len() {
            lemma_feeds_step(s, i + 1);
            assert(seq![s[i], s[i + 1]] + norm_quoted(s, i + 2, q) =~= seq![s[i]] + (seq![s[i + 1]] + norm_quoted(s, i + 2, q)));
            lemma_feeds_char(s[i], seq![s[i + 1]] + norm_quoted(s, i + 2, q));
            lemma_feeds_char(s[i + 1], norm_quoted(s, i + 2, q));
            feeds_quoted(s, i + 2, q);
        } else {
            lemma_feeds_char(s[i], norm_quoted(s, i + 1, q));
            feeds_quoted(s, i + 1, q);
        }
    } else {
        feeds_attrs(s, i);
    }
}

proof fn feeds_unquoted(s: Seq<char>, i: int)
    requires
        0 <= i <= s.len(),
    ensures
        line_feeds(norm_unquoted(s, i)) == line_feeds(rest_of(s, i)),
    decreases s.len() - i, 6int,
{
    if i < s.len() && !is_ascii_ws(s[i]) && s[i] != '>' {
        lemma_feeds_step(s, i);
        lemma_feeds_char(s[i], norm_unquoted(s, i + 1));
        feeds_unquoted(s, i + 1);
    } else {
        feeds_attrs(s, i);
    }
}

/// Rewriting keeps every line: the output has exactly as many line
/// feeds as the input, so positions map back line for line.
pub proof fn lemma_normalise_keeps_lines(s: Seq<char>)
    ensures
        line_feeds(spec_normalise(s)) == line_feeds(s),
{
    feeds_text(s, 0);
    assert(rest_of(s, 0) =~= s);
}

/// Text outside tags is copied verbatim: a stretch without `<` comes
/// out unchanged, and the rest of the rewrite goes on after it.
pub proof fn lemma_text_outside_tags_verbatim(s: Seq<char>, i: int, j: int)
    requires
        0 <= i <= j <= s.len(),
        forall|k: int| i <= k < j ==> #[trigger] s[k] != '<',
    ensures
        norm_text(s, i) == s.subrange(i, j) + norm_text(s, j),
    decreases j - i,
{
    if i < j {
        lemma_text_outside_tags_verbatim(s, i + 1, j);
        assert(s.subrange(i, j) =~= seq![s[i]] + s.subrange(i + 1, j));
    } else {
        assert(s.subrange(i, j) =~= Seq::<char>::empty());
    }
}

/// A text with no tag at all is left as it is.
pub proof fn lemma_normalise_keeps_plain_text(s: Seq<char>)
    requires
        forall|k: int| 0 <= k < s.len() ==> #[trigger] s[k] != '<',
    ensures
        spec_normalise(s) == s,
{
    lemma_text_outside_tags_verbatim(s, 0, s.len() as int);
    assert(s.subrange(0, s.len() as int) =~= s);
    assert(norm_text(s, s.len() as int) =~= Seq::<char>::empty());
}

/// The characters of `e` as the normaliser writes them inside a wrapped
/// brace expression (`brace_escape` on each).
pub open spec fn escaped(e: Seq<char>) -> Seq<char>
    decreases e.len(),
{
    if e.len() == 0 {
        seq![]
    } else {
        brace_escape(e[0]) + escaped(e.drop_first())
    }
}

/// The entity of the `n`th decoding step of `decode_entities`.
spec fn step_pat(n: nat) -> Seq<char> {
    if n == 0 {
        seq!['&', 'q', 'u', 'o', 't', ';']
    } else if n == 1 {
        seq!['&', 'a', 'p', 'o', 's', ';']
    } else if n == 2 {
        seq!['&', 'l', 't', ';']
    } else if n == 3 {
        seq!['&', 'g', 't', ';']
    } else {
        seq!['&', 'a', 'm', 'p', ';']
    }
}

/// The character the `n`th decoding step gives back.
spec fn step_char(n: nat) -> char {
    if n == 0 {
        '"'
    } else if n == 1 {
        '\''
    } else if n == 2 {
        '<'
    } else if n == 3 {
        '>'
    } else {
        '&'
    }
}

/// The step at which `c` is decoded (5 for a character never escaped).
spec fn decode_step(c: char) -> nat {
    if c == '"' {
        0
    } else if c == '\'' {
        1
    } else if c == '<' {
        2
    } else if c == '>' {
        3
    } else if c == '&' {
        4
    } else {
        5
    }
}

/// `c` as written once `n` decoding steps are done.
spec fn esc_after(c: char, n: nat) -> Seq<char> {
    if n <= decode_step(c) && decode_step(c) < 5 {
        step_pat(decode_step(c))
    } else {
        seq![c]
    }
}

spec fn enc_after(e: Seq<char>, n: nat) -> Seq<char>
    decreases e.len(),
{
    if e.len() == 0 {
        seq![]
    } else {
        esc_after(e[0], n) + enc_after(e.drop_first(), n)
    }
}

proof fn lemma_not_starts(s: Seq<char>, p: Seq<char>, j: int)
    requires
        0 <= j < p.len(),
        j < s.len() ==> s[j] != p[j],
    ensures
        !crate::strings::starts_with(s, p),
{
    if crate::strings::starts_with(s, p) {
        assert(s.subrange(0, p.len() as int)[j] == s[j]);
    }
}

proof fn lemma_replace_past(x: Seq<char>, y: Seq<char>, pat: Seq<char>, rep: Seq<char>)
    requires
        pat.len() > 0,
        forall|i: int| 0 <= i < x.len() ==> !crate::strings::starts_with(#[trigger] (x + y).skip(i), pat),
    ensures
        crate::strings::replace_all(x + y, pat, rep) == x + crate::strings::replace_all(y, pat, rep),
    decreases x.len(),
{
    if x.len() > 0 {
        assert((x + y).skip(0) =~= x + y);
        assert((x + y).drop_first() =~= x.drop_first() + y);
        assert forall|i: int| 0 <= i < x.drop_first().len() implies !crate::strings::starts_with(
            #[trigger] (x.drop_first() + y).skip(i),
            pat,
        ) by {
            assert((x.drop_first() + y).skip(i) =~= (x + y).skip(i + 1));
        }
        lemma_replace_past(x.drop_first(), y, pat, rep);
        assert(x + crate::strings::replace_all(y, pat, rep) =~= seq![x[0]] + (x.drop_first()
            + crate::strings::replace_all(y, pat, rep)));
    } else {
        assert(x + y =~= y);
        assert(x + crate::strings::replace_all(y, pat, rep) =~= crate::strings::replace_all(y, pat, rep));
    }
}

/// No entity of step `n` starts inside the way `c` is written after
/// `n` steps, unless `c` is the character that step decodes.
proof fn lemma_no_pat_inside(c: char, n: nat, rest: Seq<char>)
    requires
        n < 5,
        !(decode_step(c) == n),
    ensures
        forall|i: int| 0 <= i < esc_after(c, n).len() ==> !crate::strings::starts_with(
            #[trigger] (esc_after(c, n) + rest).skip(i),
            step_pat(n),
        ),
{
    let esc = esc_after(c, n);
    let p = step_pat(n);
    assert(p[0] == '&');
    assert forall|i: int| 0 <= i < esc.len() implies !crate::strings::starts_with(
        #[trigger] (esc + rest).skip(i),
        p,
    ) by {
        let t = (esc + rest).skip(i);
        assert(t[0] == esc[i]);
        if i == 0 && esc.len() > 1 {
            if esc[1] != p[1] {
                assert(t[1] == esc[1]);
                lemma_not_starts(t, p, 1);
            } else {
                assert(t[2] == esc[2]);
                lemma_not_starts(t, p, 2);
            }
        } else {
            lemma_not_starts(t, p, 0);
        }
    }
}

proof fn lemma_decode_step(e: Seq<char>, n: nat)
    requires
        n < 5,
    ensures
        crate::strings::replace_all(enc_after(e, n), step_pat(n), seq![step_char(n)]) == enc_after(e, n + 1),
    decreases e.len(),
{
    let p = step_pat(n);
    let r = seq![step_char(n)];
    if e.len() == 0 {
    } else {
        let c = e[0];
        let rest = enc_after(e.drop_first(), n);
        lemma_decode_step(e.drop_first(), n);
        if decode_step(c) == n {
            assert(esc_after(c, n) == p);
            assert(esc_after(c, n + 1) =~= r);
            assert((p + rest).subrange(0, p.len() as int) =~= p);
            assert((p + rest).subrange(p.len() as int, (p + rest).len() as int) =~= rest);
        } else {
            lemma_no_pat_inside(c, n, rest);
            lemma_replace_past(esc_after(c, n), rest, p, r);
            assert(esc_after(c, n + 1) == esc_after(c, n));
        }
    }
}

proof fn lemma_enc_ends(e: Seq<char>)
    ensures
        enc_after(e, 0) == escaped(e),
        enc_after(e, 5) == e,
    decreases e.len(),
{
    if e.len() > 0 {
        lemma_enc_ends(e.drop_first());
        assert(esc_after(e[0], 0) == brace_escape(e[0]));
        assert(e =~= seq![e[0]] + e.drop_first());
    }
}

/// Decoding the entities undoes the normaliser's escaping of a brace
/// expression.
pub proof fn lemma_decode_undoes_escape(e: Seq<char>)
    ensures
        crate::parser::decode_entities(escaped(e)) == e,
{
    lemma_enc_ends(e);
    lemma_decode_step(e, 0);
    lemma_decode_step(e, 1);
    lemma_decode_step(e, 2);
    lemma_decode_step(e, 3);
    lemma_decode_step(e, 4);
}

/// The value the normaliser writes for a brace expression `e`,
/// `"{` + the escaped `e` + `}"`, reads back as `e`.
pub proof fn lemma_strip_undoes_wrap(e: Seq<char>)
    ensures
        crate::parser::brace_body(seq!['"', '{'] + escaped(e) + seq!['}', '"']) == Some(e),
{
    let w = seq!['"', '{'] + escaped(e) + seq!['}', '"'];
    assert(w[0] == '"');
    assert(w.last() == '"');
    assert(crate::strings::trim_start(w) == w);
    assert(crate::strings::trim_end(w) == w);
    let u = w.subrange(1, w.len() - 1);
    assert(u =~= seq!['{'] + escaped(e) + seq!['}']);
    assert(u.subrange(1, u.len() - 1) =~= escaped(e));
    lemma_decode_undoes_escape(e);
}

} // verus!
