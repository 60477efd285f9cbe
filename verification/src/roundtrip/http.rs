//! HTTP signatures and their headers: reading the text form gives the
//! value.

use vstd::prelude::*;
use crate::display::{
    header_form, header_text, http_signature_text, joined, key_value_text, version_text,
};
use crate::http::{is_name, is_name_char, HeaderView, SignatureView, Version};
use crate::parse::http::{
    absent_at, header_at, header_elem, header_of, key_value_at, name_end, signature_at,
    signature_of, version_at,
};
use crate::parse::{list_at, list_rest, nonempty_list_at, ParseError};
use crate::roundtrip::{
    ends_item, lemma_find_char_after, lemma_find_char_first, lemma_found_free,
    lemma_list_rest_written, lemma_nonempty_list_at, lemma_starts_at_char, lemma_starts_at_self,
    lemma_starts_at_split, reads_back, reads_text,
};
use crate::text::{has_char, is_free_of, starts_at};

verus! {

/// A run of name characters that something else follows ends where it
/// does.
proof fn lemma_name_end(s: Seq<char>, i: int, j: int)
    requires
        0 <= i <= j <= s.len(),
        forall|k: int| i <= k < j ==> is_name_char(#[trigger] s[k]),
        j < s.len() ==> !is_name_char(s[j]),
    ensures
        name_end(s, i) == j,
    decreases j - i,
{
    if i < j {
        lemma_name_end(s, i + 1, j);
    }
}

/// A run of name characters is made of name characters, and ends within
/// the text.
proof fn lemma_name_run(s: Seq<char>, i: int)
    requires
        0 <= i <= s.len(),
    ensures
        i <= name_end(s, i) <= s.len(),
        is_name(s.subrange(i, name_end(s, i))),
    decreases s.len() - i,
{
    if i < s.len() && is_name_char(s[i]) {
        lemma_name_run(s, i + 1);
        let name = s.subrange(i, name_end(s, i));
        assert forall|k: int| 0 <= k < name.len() implies is_name_char(#[trigger] name[k]) by {
            if k > 0 {
                assert(name[k] == s.subrange(i + 1, name_end(s, i + 1))[k - 1]);
            }
        }
    }
}

/// A name and a value are read back from their text, where it ends.
proof fn lemma_key_value_at(s: Seq<char>, i: int, name: Seq<char>, value: Option<Seq<char>>)
    requires
        is_name(name),
        value is Some ==> is_free_of(value.unwrap(), ']'),
        starts_at(s, i, key_value_text(name, value)),
        ends_item(s, i + key_value_text(name, value).len()),
    ensures
        key_value_at(s, i) == (name, value, i + key_value_text(name, value).len()),
{
    reveal_strlit("=[");
    reveal_strlit("]");
    let j = i + name.len();
    match value {
        Some(v) => {
            lemma_starts_at_split(s, i, name + "=["@ + v, "]"@);
            lemma_starts_at_split(s, i, name + "=["@, v);
            lemma_starts_at_split(s, i, name, "=["@);
            assert(s.subrange(j, j + 2)[0] == s[j]);
            lemma_starts_at_char(s, j + 2 + v.len(), "]"@);
            lemma_find_char_after(s, j + 2, v, ']');
        },
        None => {
            if starts_at(s, j, "=["@) {
                assert(s.subrange(j, j + 2)[0] == s[j]);
            }
        },
    }
    assert forall|k: int| i <= k < j implies is_name_char(#[trigger] s[k]) by {
        assert(s[k] == s.subrange(i, j)[k - i]);
        assert(is_name_char(name[k - i]));
    }
    lemma_name_end(s, i, j);
}

/// A plain header is read back from its text, where it ends.
pub(crate) proof fn lemma_header_at(s: Seq<char>, i: int, h: HeaderView)
    requires
        h.is_plain(),
        starts_at(s, i, header_text(h)),
        ends_item(s, i + header_text(h).len()),
    ensures
        header_at(s, i) == Some((h, i + header_text(h).len())),
{
    reveal_strlit("?");
    reveal_strlit("=[");
    let body = key_value_text(h.name, h.value);
    if h.optional {
        lemma_starts_at_split(s, i, "?"@, body);
        lemma_starts_at_char(s, i, "?"@);
        lemma_key_value_at(s, i + 1, h.name, h.value);
    } else {
        lemma_key_value_at(s, i, h.name, h.value);
        if body.len() > 0 {
            assert(s.subrange(i, i + body.len())[0] == s[i]);
            if h.name.len() > 0 {
                assert(is_name_char(h.name[0]));
                match h.value {
                    Some(v) => {
                        assert(body =~= h.name + ("=["@ + v + "]"@));
                    },
                    None => {},
                }
                assert(body[0] == h.name[0]);
            } else {
                let v = h.value.unwrap();
                assert(body =~= "=["@ + (v + "]"@));
                assert(body[0] == '=');
            }
        }
    }
}

/// A header that can stand in a list is read back wherever its text stands
/// and ends.
proof fn lemma_header_reads_back(s: Seq<char>, h: HeaderView)
    requires
        h.is_listed(),
    ensures
        reads_back(header_elem(), header_form(), s, h),
{
    reveal_strlit("?");
    reveal_strlit("=[");
    let text = header_text(h);
    assert(text.len() > 0);
    assert forall|p: int| starts_at(s, p, text) && ends_item(s, p + text.len()) implies (
    #[trigger] header_elem()(s, p)) == Some((h, p + text.len())) by {
        lemma_header_at(s, p, h);
    }
}

/// Headers that can stand in a list are read back from their text, where a
/// colon follows it.
proof fn lemma_headers_at(s: Seq<char>, i: int, headers: Seq<HeaderView>)
    requires
        headers.len() > 0,
        forall|k: int| 0 <= k < headers.len() ==> (#[trigger] headers[k]).is_listed(),
        starts_at(s, i, joined(headers, header_form())),
        has_char(s, i + joined(headers, header_form()).len(), ':'),
    ensures
        nonempty_list_at(header_elem(), s, i) == Some(
            (headers, i + joined(headers, header_form()).len()),
        ),
        list_at(header_elem(), s, i) == Some((headers, i + joined(headers, header_form()).len())),
{
    assert forall|k: int| 0 <= k < headers.len() implies reads_back(
        header_elem(),
        header_form(),
        s,
        #[trigger] headers[k],
    ) by {
        lemma_header_reads_back(s, headers[k]);
    }
    lemma_nonempty_list_at(header_elem(), header_form(), s, i, headers);
}

pub(crate) proof fn lemma_version_at(s: Seq<char>, i: int, v: Version)
    requires
        starts_at(s, i, version_text(v)),
    ensures
        version_at(s, i) == Some((v, i + 1)),
        version_text(v).len() == 1,
{
    reveal_strlit("0");
    reveal_strlit("1");
    reveal_strlit("*");
    lemma_starts_at_char(s, i, version_text(v));
}

/// A plain signature is read back from its text, where the text ends with
/// it.
pub(crate) proof fn lemma_signature_at(s: Seq<char>, i: int, sig: SignatureView)
    requires
        sig.is_plain(),
        starts_at(s, i, http_signature_text(sig)),
        i + http_signature_text(sig).len() == s.len(),
    ensures
        signature_at(s, i) == Ok::<(SignatureView, int), int>((sig, s.len() as int)),
{
    reveal_strlit(":");
    reveal_strlit("=[");
    let c = ":"@;
    let horder = joined(sig.horder, header_form());
    let habsent = joined(sig.habsent, header_form());
    let p1 = version_text(sig.version);
    let p2 = p1 + c;
    let p3 = p2 + horder;
    let p4 = p3 + c;
    let p5 = p4 + habsent;
    let p6 = p5 + c;
    assert(http_signature_text(sig) == p6 + sig.expsw);
    lemma_starts_at_split(s, i, p6, sig.expsw);
    lemma_starts_at_split(s, i, p5, c);
    lemma_starts_at_split(s, i, p4, habsent);
    lemma_starts_at_split(s, i, p3, c);
    lemma_starts_at_split(s, i, p2, horder);
    lemma_starts_at_split(s, i, p1, c);
    lemma_starts_at_char(s, i + p1.len(), c);
    lemma_starts_at_char(s, i + p3.len(), c);
    lemma_starts_at_char(s, i + p5.len(), c);
    lemma_version_at(s, i, sig.version);
    lemma_headers_at(s, i + p2.len(), sig.horder);
    let b = i + p4.len();
    if sig.habsent.len() == 0 {
        assert(sig.habsent =~= Seq::<HeaderView>::empty());
        assert(habsent.len() == 0);
        assert(name_end(s, b) == b);
        if starts_at(s, b, "=["@) {
            assert(s.subrange(b, b + 2)[0] == s[b]);
        }
        assert(header_at(s, b).unwrap().1 == b);
        assert(absent_at(s, b) == (sig.habsent, b));
    } else {
        lemma_headers_at(s, b, sig.habsent);
        assert(absent_at(s, b) == (sig.habsent, i + p5.len()));
    }
    let e = i + p6.len();
    assert(s.subrange(e, s.len() as int) == sig.expsw);
}

/// A header that was read is plain, and can stand in a list if it took any
/// of the text.
proof fn lemma_header_read(s: Seq<char>, i: int)
    requires
        0 <= i <= s.len(),
    ensures
        header_at(s, i).unwrap().0.is_plain(),
        i <= header_at(s, i).unwrap().1 <= s.len(),
        i < header_at(s, i).unwrap().1 ==> header_at(s, i).unwrap().0.is_listed(),
{
    reveal_strlit("=[");
    let p = if has_char(s, i, '?') {
        i + 1
    } else {
        i
    };
    lemma_name_run(s, p);
    let j = name_end(s, p);
    if starts_at(s, j, "=["@) {
        lemma_find_char_first(s, j + 2, ']');
        lemma_found_free(s, j + 2, ']');
    }
}

/// Whether all of `items` can stand in a list.
pub open spec fn all_listed(items: Seq<HeaderView>) -> bool {
    forall|k: int| 0 <= k < items.len() ==> (#[trigger] items[k]).is_listed()
}

/// The headers of a list that was read can all stand in a list.
proof fn lemma_headers_read(s: Seq<char>, i: int, acc: Seq<HeaderView>)
    requires
        0 <= i <= s.len(),
        all_listed(acc),
    ensures
        all_listed(list_rest(header_elem(), s, i, acc).0),
        list_rest(header_elem(), s, i, acc).0.len() >= acc.len(),
    decreases s.len() - i,
{
    if has_char(s, i, ',') {
        lemma_header_read(s, i + 1);
        let (h, j) = header_at(s, i + 1).unwrap();
        if i + 1 < j <= s.len() {
            let next = acc.push(h);
            assert forall|k: int| 0 <= k < next.len() implies (#[trigger] next[k]).is_listed() by {
                if k < acc.len() {
                    assert(next[k] == acc[k]);
                }
            }
            lemma_headers_read(s, j, next);
        }
    }
}

/// Reading the text form of a plain header gives the header.
pub proof fn header_round_trip(h: HeaderView)
    requires
        h.is_plain(),
    ensures
        header_of(header_text(h)) == Ok::<HeaderView, ParseError>(h),
{
    lemma_starts_at_self(header_text(h));
    lemma_header_at(header_text(h), 0, h);
}

/// A header that was read from a text is plain.
pub proof fn header_read_is_plain(s: Seq<char>)
    ensures
        match header_of(s) {
            Ok(h) => h.is_plain(),
            Err(_) => true,
        },
{
    lemma_header_read(s, 0);
}

/// Reading the text form of a plain signature gives the signature.
pub proof fn signature_round_trip(sig: SignatureView)
    requires
        sig.is_plain(),
    ensures
        signature_of(http_signature_text(sig)) == Ok::<SignatureView, ParseError>(sig),
{
    lemma_starts_at_self(http_signature_text(sig));
    lemma_signature_at(http_signature_text(sig), 0, sig);
}

/// A signature that was read from a text is plain.
pub proof fn signature_read_is_plain(s: Seq<char>)
    ensures
        match signature_of(s) {
            Ok(sig) => sig.is_plain(),
            Err(_) => true,
        },
{
    match signature_at(s, 0) {
        Ok((sig, _)) => {
            let a = version_at(s, 0).unwrap().1;
            lemma_header_read(s, a + 1);
            let (first, j) = header_at(s, a + 1).unwrap();
            assert(all_listed(seq![first])) by {
                assert(seq![first][0] == first);
            }
            lemma_headers_read(s, j, seq![first]);
            let b = nonempty_list_at(header_elem(), s, a + 1).unwrap().1;
            lemma_header_read(s, b + 1);
            let (other, k) = header_at(s, b + 1).unwrap();
            if b + 1 < k {
                assert(all_listed(seq![other])) by {
                    assert(seq![other][0] == other);
                }
                lemma_headers_read(s, k, seq![other]);
            }
        },
        Err(_) => {},
    }
}

/// A signature that was read from a text is read again from its own text
/// form: writing and reading it changes nothing.
pub proof fn signature_read_again(s: Seq<char>)
    ensures
        match signature_of(s) {
            Ok(sig) => signature_of(http_signature_text(sig)) == Ok::<SignatureView, ParseError>(
                sig,
            ),
            Err(_) => true,
        },
{
    signature_read_is_plain(s);
    match signature_of(s) {
        Ok(sig) => {
            signature_round_trip(sig);
        },
        Err(_) => {},
    }
}

/// A header that was read from a text is read again from its own text
/// form.
pub proof fn header_read_again(s: Seq<char>)
    ensures
        match header_of(s) {
            Ok(h) => header_of(header_text(h)) == Ok::<HeaderView, ParseError>(h),
            Err(_) => true,
        },
{
    header_read_is_plain(s);
    match header_of(s) {
        Ok(h) => {
            header_round_trip(h);
        },
        Err(_) => {},
    }
}

/// The part of a text that is read as a header is what the header is
/// written as.
proof fn lemma_header_written(s: Seq<char>, i: int)
    requires
        0 <= i <= s.len(),
    ensures
        i <= header_at(s, i).unwrap().1 <= s.len(),
        s.subrange(i, header_at(s, i).unwrap().1) == header_text(header_at(s, i).unwrap().0),
{
    reveal_strlit("?");
    reveal_strlit("=[");
    reveal_strlit("]");
    let (h, j) = header_at(s, i).unwrap();
    let p = if has_char(s, i, '?') {
        i + 1
    } else {
        i
    };
    lemma_name_run(s, p);
    let e = name_end(s, p);
    if starts_at(s, e, "=["@) {
        lemma_find_char_first(s, e + 2, ']');
    }
    let body = key_value_text(h.name, h.value);
    match h.value {
        Some(v) => {
            let k = crate::text::find_char(s, e + 2, ']');
            assert("=["@ =~= s.subrange(e, e + 2));
            assert("]"@ =~= s.subrange(k, k + 1));
            assert(body =~= s.subrange(p, e) + s.subrange(e, e + 2) + s.subrange(e + 2, k)
                + s.subrange(k, k + 1));
            assert(body =~= s.subrange(p, j));
        },
        None => {
            assert(body =~= s.subrange(p, j));
        },
    }
    if h.optional {
        assert("?"@ =~= s.subrange(i, i + 1));
        assert(s.subrange(i, j) =~= s.subrange(i, i + 1) + s.subrange(p, j));
    }
}

/// Headers are read from nothing but what they are written as.
proof fn lemma_headers_read_text(s: Seq<char>)
    ensures
        reads_text(header_elem(), header_form(), s),
{
    assert forall|p: int| 0 <= p <= s.len() implies match #[trigger] header_elem()(s, p) {
        Some((v, q)) => p <= q <= s.len() && s.subrange(p, q) == header_form()(v),
        None => true,
    } by {
        lemma_header_written(s, p);
    }
}

/// A header is read from its own text form alone: a text that reads as a
/// header is what the header is written as.
pub proof fn header_written_as_read(s: Seq<char>)
    ensures
        match header_of(s) {
            Ok(h) => header_text(h) == s,
            Err(_) => true,
        },
{
    lemma_header_written(s, 0);
    assert(s.subrange(0, s.len() as int) =~= s);
}

/// A signature is read from its own text form alone: a text that reads as
/// a signature is what the signature is written as.
pub proof fn signature_written_as_read(s: Seq<char>)
    ensures
        match signature_of(s) {
            Ok(sig) => http_signature_text(sig) == s,
            Err(_) => true,
        },
{
    reveal_strlit("0");
    reveal_strlit("1");
    reveal_strlit("*");
    reveal_strlit(":");
    match signature_at(s, 0) {
        Ok((sig, _)) => {
            lemma_headers_read_text(s);
            lemma_header_written(s, 2);
            let (first, j) = header_at(s, 2).unwrap();
            assert(joined(seq![first], header_form()) == header_text(first));
            lemma_list_rest_written(header_elem(), header_form(), s, 2, j, seq![first]);
            let b = nonempty_list_at(header_elem(), s, 2).unwrap().1;
            let (habsent, c) = absent_at(s, b + 1);
            lemma_header_written(s, b + 1);
            let (other, k) = header_at(s, b + 1).unwrap();
            if b + 1 < k {
                assert(joined(seq![other], header_form()) == header_text(other));
                lemma_list_rest_written(header_elem(), header_form(), s, b + 1, k, seq![other]);
            } else {
                assert(joined(habsent, header_form()) =~= s.subrange(b + 1, c));
            }
            assert(version_text(sig.version) =~= s.subrange(0, 1));
            assert(":"@ =~= s.subrange(1, 2));
            assert(":"@ =~= s.subrange(b, b + 1));
            assert(":"@ =~= s.subrange(c, c + 1));
            assert(http_signature_text(sig) =~= s.subrange(0, 1) + s.subrange(1, 2) + s.subrange(
                2,
                b,
            ) + s.subrange(b, b + 1) + s.subrange(b + 1, c) + s.subrange(c, c + 1) + s.subrange(
                c + 1,
                s.len() as int,
            ));
            assert(http_signature_text(sig) =~= s);
        },
        Err(_) => {},
    }
}

} // verus!
