//! Redaction of JSON before it is logged: members whose key names a secret, a token
//! or an authorization lose their value, and open ids are masked.
use vstd::prelude::*;
use vstd::string::*;

use crate::json::{json_view, lemma_items_view, lemma_members_view, items_view, members_view, JsonValue, JsonView};

verus! {

/// The code of `c` with ASCII capitals lowered.
pub open spec fn lower_code(c: char) -> u32 {
    if 'A' <= c <= 'Z' {
        (c as u32 + 32) as u32
    } else {
        c as u32
    }
}

/// `pat` occurs in `s` at `i`, ignoring ASCII case.
pub open spec fn matches_at(s: Seq<char>, pat: Seq<char>, i: int) -> bool {
    0 <= i && i + pat.len() <= s.len() && forall|j: int| 0 <= j < pat.len() ==> lower_code(#[trigger] s[i + j]) == pat[j] as u32
}

/// `pat` occurs somewhere in `s`, ignoring ASCII case.
pub open spec fn contains_ci(s: Seq<char>, pat: Seq<char>) -> bool {
    exists|i: int| matches_at(s, pat, i)
}

/// A key whose value is never logged.
pub open spec fn secret_key(key: Seq<char>) -> bool {
    contains_ci(key, "secret"@) || contains_ci(key, "token"@) || contains_ci(key, "authorization"@)
}

/// A key that holds an open id.
pub open spec fn openid_key(key: Seq<char>) -> bool {
    contains_ci(key, "openid"@)
}

/// The value a member keeps after redaction.
pub open spec fn redact_member(key: Seq<char>, value: JsonView) -> JsonView
    decreases value, 1nat,
{
    if secret_key(key) {
        JsonView::Text("<redacted>"@)
    } else if openid_key(key) && value != JsonView::Null {
        JsonView::Text("<openid:redacted>"@)
    } else {
        redact_view(value)
    }
}

pub open spec fn redact_view(v: JsonView) -> JsonView
    decreases v, 0nat,
{
    match v {
        JsonView::Object(m) => JsonView::Object(redact_members(m, m.len())),
        JsonView::Array(items) => JsonView::Array(redact_items(items, items.len())),
        _ => v,
    }
}

pub open spec fn redact_members(m: Seq<(Seq<char>, JsonView)>, n: nat) -> Seq<(Seq<char>, JsonView)>
    decreases m, n,
{
    if n == 0 || n > m.len() {
        Seq::empty()
    } else {
        redact_members(m, (n - 1) as nat).push((m[n - 1].0, redact_member(m[n - 1].0, m[n - 1].1)))
    }
}

pub open spec fn redact_items(items: Seq<JsonView>, n: nat) -> Seq<JsonView>
    decreases items, n,
{
    if n == 0 || n > items.len() {
        Seq::empty()
    } else {
        redact_items(items, (n - 1) as nat).push(redact_view(items[n - 1]))
    }
}

proof fn lemma_redact_members(m: Seq<(Seq<char>, JsonView)>, n: nat)
    requires
        n <= m.len(),
    ensures
        redact_members(m, n).len() == n,
        forall|k: int| 0 <= k < n ==> #[trigger] redact_members(m, n)[k] == (m[k].0, redact_member(m[k].0, m[k].1)),
    decreases n,
{
    if n > 0 {
        lemma_redact_members(m, (n - 1) as nat);
    }
}

proof fn lemma_redact_items(items: Seq<JsonView>, n: nat)
    requires
        n <= items.len(),
    ensures
        redact_items(items, n).len() == n,
        forall|k: int| 0 <= k < n ==> #[trigger] redact_items(items, n)[k] == redact_view(items[k]),
    decreases n,
{
    if n > 0 {
        lemma_redact_items(items, (n - 1) as nat);
    }
}

/// Redaction keeps an object's keys in place, and no member keyed as a secret keeps
/// its value.
pub proof fn lemma_secrets_redacted(m: Seq<(Seq<char>, JsonView)>, k: int)
    requires
        0 <= k < m.len(),
    ensures
        redact_view(JsonView::Object(m)) matches JsonView::Object(r) && r.len() == m.len() && r[k].0 == m[k].0
            && (secret_key(m[k].0) ==> r[k].1 == JsonView::Text("<redacted>"@)),
{
    lemma_redact_members(m, m.len());
}

fn char_at(s: &str, i: usize) -> (r: char)
    requires
        i < s@.len(),
    ensures
        r == s@[i as int],
{
    s.get_char(i)
}

/// Whether `pat` (lower case ASCII) occurs in `s`, ignoring ASCII case.
fn contains_ignore_case(s: &str, pat: &str) -> (r: bool)
    ensures
        r == contains_ci(s@, pat@),
{
    let n = s.unicode_len();
    let m = pat.unicode_len();
    if m > n {
        assert forall|i: int| !matches_at(s@, pat@, i) by {}
        return false;
    }
    let mut i: usize = 0;
    while i <= n - m
        invariant
            n == s@.len(),
            m == pat@.len(),
            m <= n,
            i <= n - m + 1,
            forall|k: int| 0 <= k < i ==> !matches_at(s@, pat@, k),
        decreases n - i,
    {
        let mut j: usize = 0;
        let mut ok = true;
        while j < m
            invariant
                n == s@.len(),
                m == pat@.len(),
                i + m <= n,
                j <= m,
                ok == forall|t: int| 0 <= t < j ==> lower_code(#[trigger] s@[i + t]) == pat@[t] as u32,
            decreases m - j,
        {
            let c = char_at(s, i + j);
            let code: u32 = if 'A' <= c && c <= 'Z' {
                c as u32 + 32
            } else {
                c as u32
            };
            if code != char_at(pat, j) as u32 {
                ok = false;
            }
            proof {
                assert(s@[i + j] == c);
            }
            j = j + 1;
        }
        if ok {
            assert(matches_at(s@, pat@, i as int));
            return true;
        }
        i = i + 1;
    }
    assert forall|k: int| !matches_at(s@, pat@, k) by {
        if 0 <= k && k < i {
        }
    }
    false
}

fn is_secret_key(key: &str) -> (r: bool)
    ensures
        r == secret_key(key@),
{
    contains_ignore_case(key, "secret") || contains_ignore_case(key, "token") || contains_ignore_case(
        key,
        "authorization",
    )
}

/// A copy of `value` in which secrets and open ids are masked at every depth.
pub fn redact_json(value: &JsonValue) -> (r: JsonValue)
    ensures
        r@ == redact_view(value@),
    decreases value,
{
    match value {
        JsonValue::Object(members) => {
            let mut out: Vec<(String, JsonValue)> = Vec::new();
            let mut i: usize = 0;
            while i < members.len()
                invariant
                    *value == JsonValue::Object(*members),
                    0 <= i <= members@.len(),
                    out@.len() == i,
                    forall|k: int|
                        0 <= k < i ==> (#[trigger] out@[k]).0@ == members@[k].0@ && json_view(out@[k].1)
                            == redact_member(members@[k].0@, json_view(members@[k].1)),
                decreases members@.len() - i,
            {
                let key = &members[i].0;
                let item = &members[i].1;
                let redacted = if is_secret_key(key.as_str()) {
                    JsonValue::Text(String::from_str("<redacted>"))
                } else if contains_ignore_case(key.as_str(), "openid") && !matches!(item, JsonValue::Null) {
                    JsonValue::Text(String::from_str("<openid:redacted>"))
                } else {
                    proof {
                        assert(decreases_to!(*value => value->Object_0));
                        assert(decreases_to!(value->Object_0 => members@));
                        assert(decreases_to!(members@ => members@[i as int]));
                        assert(decreases_to!(members@[i as int] => members@[i as int].1));
                    }
                    redact_json(item)
                };
                proof {
                    reveal_strlit("<redacted>");
                    reveal_strlit("<openid:redacted>");
                }
                out.push((key.clone(), redacted));
                i = i + 1;
            }
            proof {
                lemma_members_view(out@, out@.len());
                lemma_members_view(members@, members@.len());
                lemma_redact_members(members_view(members@, members@.len()), members@.len());
                assert(members_view(out@, out@.len()) =~= redact_members(
                    members_view(members@, members@.len()),
                    members@.len(),
                ));
            }
            JsonValue::Object(out)
        },
        JsonValue::Array(items) => {
            let mut out: Vec<JsonValue> = Vec::new();
            let mut i: usize = 0;
            while i < items.len()
                invariant
                    *value == JsonValue::Array(*items),
                    0 <= i <= items@.len(),
                    out@.len() == i,
                    forall|k: int| 0 <= k < i ==> json_view(#[trigger] out@[k]) == redact_view(json_view(items@[k])),
                decreases items@.len() - i,
            {
                proof {
                    assert(decreases_to!(*value => value->Array_0));
                    assert(decreases_to!(value->Array_0 => items@));
                    assert(decreases_to!(items@ => items@[i as int]));
                }
                let item = redact_json(&items[i]);
                out.push(item);
                i = i + 1;
            }
            proof {
                lemma_items_view(out@, out@.len());
                lemma_items_view(items@, items@.len());
                lemma_redact_items(items_view(items@, items@.len()), items@.len());
                assert(items_view(out@, out@.len()) =~= redact_items(items_view(items@, items@.len()), items@.len()));
            }
            JsonValue::Array(out)
        },
        _ => value.copy(),
    }
}

} // verus!
