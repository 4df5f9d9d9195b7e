//! Reading a model reply as at most one action call.
//!
//! The reply format is the same one the history renders: an action call is
//! `<action key="value" ...>payload</action>`. The first `<`..`>` pair frames
//! the call; the head names the action up to the first space; the remaining
//! space-separated `key=value` chunks (values may be quoted) are the
//! attributes; the payload runs to the first matching closing tag, and a
//! reply without one carries no payload.

use vstd::prelude::*;
use vstd::string::*;

use crate::invocation::Invocation;

verus! {

/// Position `i` holds the first occurrence of `ch` at or after `from`.
pub open spec fn char_first_at(s: Seq<char>, ch: char, from: int, i: int) -> bool {
    &&& from <= i < s.len()
    &&& s[i] == ch
    &&& forall|j: int| from <= j < i ==> s[j] != ch
}

/// The closing tag `</action>` stands at position `k`.
pub open spec fn closing_at(s: Seq<char>, action: Seq<char>, k: int) -> bool {
    &&& 0 <= k
    &&& k + action.len() + 3 <= s.len()
    &&& s[k] == '<'
    &&& s[k + 1] == '/'
    &&& forall|t: int| 0 <= t < action.len() ==> s[k + 2 + t] == #[trigger] action[t]
    &&& s[k + 2 + action.len()] == '>'
}

/// Position `k` holds the first closing tag at or after `from`.
pub open spec fn closing_first_at(s: Seq<char>, action: Seq<char>, from: int, k: int) -> bool {
    &&& from <= k
    &&& closing_at(s, action, k)
    &&& forall|j: int| from <= j < k ==> !closing_at(s, action, j)
}

/// The reply holds no readable action call: it has no `<`, or no `>` after
/// the first `<`, or the head between them is empty or a closing tag.
pub open spec fn spec_reply_refused(s: Seq<char>) -> bool {
    ||| forall|j: int| 0 <= j < s.len() ==> s[j] != '<'
    ||| exists|o: int|
        #[trigger] char_first_at(s, '<', 0, o) && ((forall|j: int|
            o + 1 <= j < s.len() ==> s[j] != '>') || (exists|c: int|
            #[trigger] char_first_at(s, '>', o + 1, c) && (c == o + 1 || s[o + 1] == '/')))
}

/// Positions `o` and `c` frame the call: the first `<` of the reply and the
/// first `>` after it, with a nonempty head that is no closing tag.
pub open spec fn reply_frame(s: Seq<char>, o: int, c: int) -> bool {
    &&& char_first_at(s, '<', 0, o)
    &&& char_first_at(s, '>', o + 1, c)
    &&& c > o + 1
    &&& s[o + 1] != '/'
}

/// The action name spans `[o + 1, e)`: it ends at the first space of the
/// head, or at the head's end when the head has no space.
pub open spec fn action_span(s: Seq<char>, o: int, c: int, e: int) -> bool {
    ||| (e < c && char_first_at(s, ' ', o + 1, e))
    ||| (e == c && forall|j: int| o + 1 <= j < c ==> s[j] != ' ')
}

/// Finds the first occurrence of `ch` at or after `from`.
fn find_char_from(s: &str, ch: char, from: usize) -> (r: Option<usize>)
    requires
        from <= s@.len(),
    ensures
        match r {
            Some(i) => char_first_at(s@, ch, from as int, i as int),
            None => forall|j: int| from <= j < s@.len() ==> s@[j] != ch,
        },
{
    let len = s.unicode_len();
    let mut i: usize = from;
    while i < len
        invariant
            from <= i <= len,
            len == s@.len(),
            forall|j: int| from <= j < i ==> s@[j] != ch,
        decreases len - i,
    {
        if s.get_char(i) == ch {
            return Some(i);
        }
        i = i + 1;
    }
    None
}

/// Whether the closing tag `</action>` stands at position `k`.
fn match_closing_at(s: &str, action: &String, k: usize) -> (r: bool)
    ensures
        r == closing_at(s@, action@, k as int),
{
    let len = s.unicode_len();
    let alen = action.as_str().unicode_len();
    if len < 3 || alen > len - 3 || k > len - 3 - alen {
        return false;
    }
    if s.get_char(k) != '<' || s.get_char(k + 1) != '/' {
        return false;
    }
    let mut t: usize = 0;
    while t < alen
        invariant
            t <= alen,
            alen == action@.len(),
            len == s@.len(),
            k + alen + 3 <= len,
            forall|u: int| 0 <= u < t ==> s@[k + 2 + u] == action@[u],
        decreases alen - t,
    {
        if s.get_char(k + 2 + t) != action.as_str().get_char(t) {
            return false;
        }
        t = t + 1;
    }
    s.get_char(k + 2 + alen) == '>'
}

/// Finds the first closing tag `</action>` at or after `from`.
fn find_closing(s: &str, action: &String, from: usize) -> (r: Option<usize>)
    ensures
        match r {
            Some(k) => closing_first_at(s@, action@, from as int, k as int),
            None => forall|j: int| from <= j ==> !closing_at(s@, action@, j),
        },
{
    let len = s.unicode_len();
    let mut k: usize = from;
    while k < len
        invariant
            from <= k,
            len == s@.len(),
            forall|j: int| from <= j < k ==> !closing_at(s@, action@, j),
        decreases len - k,
    {
        if match_closing_at(s, action, k) {
            return Some(k);
        }
        k = k + 1;
    }
    None
}

/// Reads a model reply as at most one action call. The call is framed by the
/// reply's first `<` and the first `>` after it; the action name runs to the
/// first space of the head; the payload is the text up to the first matching
/// closing tag, and a reply without one carries no payload. The attribute
/// list is read from the head's remaining `key=value` chunks.
pub fn parse_reply(reply: &str) -> (r: Option<Invocation>)
    ensures
        match r {
            None => spec_reply_refused(reply@),
            Some(inv) => exists|o: int, c: int|
                #[trigger] reply_frame(reply@, o, c) && (exists|e: int|
                    #[trigger] action_span(reply@, o, c, e) && inv.action@ == reply@.subrange(
                        o + 1,
                        e,
                    )) && (match inv.payload {
                    Some(p) => exists|k: int|
                        #[trigger] closing_first_at(reply@, inv.action@, c + 1, k) && p@
                            == reply@.subrange(c + 1, k),
                    None => forall|k: int| c + 1 <= k ==> !closing_at(reply@, inv.action@, k),
                }),
        },
{
    let len = reply.unicode_len();
    let o = match find_char_from(reply, '<', 0) {
        Some(o) => o,
        None => {
            return None;
        },
    };
    let c = match find_char_from(reply, '>', o + 1) {
        Some(c) => c,
        None => {
            proof {
                assert(char_first_at(reply@, '<', 0, o as int));
            }
            return None;
        },
    };
    if c == o + 1 || reply.get_char(o + 1) == '/' {
        proof {
            assert(char_first_at(reply@, '<', 0, o as int));
            assert(char_first_at(reply@, '>', o as int + 1, c as int));
        }
        return None;
    }
    // the action name: the head up to its first space
    let aend: usize = match find_char_from(reply, ' ', o + 1) {
        Some(sp) => if sp < c {
            sp
        } else {
            c
        },
        None => c,
    };
    let action = reply.substring_char(o + 1, aend).to_owned();
    proof {
        assert(action_span(reply@, o as int, c as int, aend as int));
    }

    // the attributes: space-separated key=value chunks, values may be quoted
    let mut attributes: Vec<(String, String)> = Vec::new();
    let mut pos: usize = aend;
    while pos < c
        invariant
            pos <= c,
            c < reply@.len(),
        decreases c - pos,
    {
        if reply.get_char(pos) == ' ' {
            pos = pos + 1;
        } else {
            let mut e: usize = pos + 1;
            while e < c && reply.get_char(e) != ' '
                invariant
                    pos < e <= c,
                    c < reply@.len(),
                decreases c - e,
            {
                e = e + 1;
            }
            let mut q: usize = pos;
            while q < e && reply.get_char(q) != '='
                invariant
                    pos <= q <= e <= c < reply@.len(),
                decreases e - q,
            {
                q = q + 1;
            }
            if q < e {
                let key = reply.substring_char(pos, q).to_owned();
                let mut vs: usize = q + 1;
                let mut ve: usize = e;
                while vs < ve && reply.get_char(vs) == '"'
                    invariant
                        q < vs <= ve <= e <= c < reply@.len(),
                    decreases ve - vs,
                {
                    vs = vs + 1;
                }
                while ve > vs && reply.get_char(ve - 1) == '"'
                    invariant
                        q < vs <= ve <= e <= c < reply@.len(),
                    decreases ve - vs,
                {
                    ve = ve - 1;
                }
                let value = reply.substring_char(vs, ve).to_owned();
                attributes.push((key, value));
            }
            pos = e;
        }
    }

    // the payload: the text up to the first matching closing tag
    let payload: Option<String> = match find_closing(reply, &action, c + 1) {
        Some(k) => Some(reply.substring_char(c + 1, k).to_owned()),
        None => None,
    };
    let attrs: Option<Vec<(String, String)>> = if attributes.is_empty() {
        None
    } else {
        Some(attributes)
    };
    let inv = Invocation::new(action, attrs, payload);
    proof {
        assert(reply_frame(reply@, o as int, c as int));
    }
    Some(inv)
}

} // verus!
