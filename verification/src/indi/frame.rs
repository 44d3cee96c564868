//! Cutting the byte stream of an INDI server into messages.
//!
//! A message is an XML element: either a single self-closing tag, or all from
//! an opening tag to the first closing tag of the same name. Bytes before the
//! first tag belong to no message.

use crate::text::{
    chars_of, copy_of, ends, find, first_word, is_white, law_first_word, law_parts_occur,
    law_split_at_the_first, leading_word, lemma_find, occurs_at, position_of, stands_at, string_of,
    texts,
};
use vstd::prelude::*;
use vstd::slice::slice_subrange;
use vstd::utf8::{
    decode_utf8, decode_utf8_encode_utf8, encode_scalar, encode_utf8, encode_utf8_decode_utf8,
    encode_utf8_valid_utf8, valid_utf8,
};

verus! {

/// `std::str::from_utf8`: the text that the bytes encode in UTF-8, or nothing
/// where they are not valid UTF-8.
#[verifier::external_body]
fn utf8_text(bytes: &[u8]) -> (r: Option<String>)
    ensures
        match r {
            Some(s) => valid_utf8(bytes@) && s@ == decode_utf8(bytes@),
            None => !valid_utf8(bytes@),
        },
{
    std::str::from_utf8(bytes).ok().map(|s| s.to_owned())
}

/// The closing tag of an element whose opening tag has this content.
pub open spec fn closing_tag(body: Seq<char>) -> Seq<char> {
    let name = match first_word(body) {
        Some(w) => w,
        None => body,
    };
    "</"@ + name + ">"@
}

/// Where the first message of `s` begins and ends.
pub open spec fn message_at(s: Seq<char>) -> Option<(int, int)> {
    match find(s, seq!['<']) {
        Some(start) => {
            let suffix = s.skip(start);
            match find(suffix, seq!['>']) {
                Some(e) => if ends(suffix.take(e + 1), "/>"@) {
                    Some((start, start + e + 1))
                } else {
                    let close = closing_tag(suffix.subrange(1, e));
                    match find(suffix, close) {
                        Some(k) => Some((start, start + k + close.len())),
                        None => None,
                    }
                },
                None => None,
            }
        },
        None => None,
    }
}

/// A message lies within the text and is not empty.
pub proof fn lemma_message_bounds(s: Seq<char>)
    ensures
        match message_at(s) {
            Some((start, end)) => 0 <= start < end <= s.len(),
            None => true,
        },
{
    lemma_find(s, seq!['<']);
    match find(s, seq!['<']) {
        Some(start) => {
            let suffix = s.skip(start);
            lemma_find(suffix, seq!['>']);
            match find(suffix, seq!['>']) {
                Some(e) => {
                    let close = closing_tag(suffix.subrange(1, e));
                    reveal_strlit(">");
                    lemma_find(suffix, close);
                },
                None => {},
            }
        },
        None => {},
    }
}

/// The messages of `s`, from left to right.
pub open spec fn messages(s: Seq<char>) -> Seq<Seq<char>>
    decreases s.len(),
{
    proof {
        lemma_message_bounds(s);
    }
    match message_at(s) {
        Some((start, end)) => seq![s.subrange(start, end)] + messages(s.skip(end)),
        None => Seq::empty(),
    }
}

/// What is left of `s` behind its last message.
pub open spec fn unfinished(s: Seq<char>) -> Seq<char>
    decreases s.len(),
{
    proof {
        lemma_message_bounds(s);
    }
    match message_at(s) {
        Some((_, end)) => unfinished(s.skip(end)),
        None => s,
    }
}

// ---------------------------------------------------------------------------
// Byte lengths
// ---------------------------------------------------------------------------

/// The bytes of two texts, one behind the other.
proof fn lemma_encode_concat(a: Seq<char>, b: Seq<char>)
    ensures
        encode_utf8(a + b) == encode_utf8(a) + encode_utf8(b),
    decreases a.len(),
{
    if a.len() == 0 {
        assert(a + b =~= b);
    } else {
        assert((a + b).drop_first() =~= a.drop_first() + b);
        lemma_encode_concat(a.drop_first(), b);
        assert(encode_utf8(a + b) =~= encode_utf8(a) + encode_utf8(b));
    }
}

/// The number of bytes of a character.
fn char_len(c: char) -> (r: usize)
    ensures
        r == encode_scalar(c as u32).len(),
        1 <= r <= 4,
{
    let v: u32 = c as u32;
    if v <= 0x7f {
        1
    } else if v <= 0x7ff {
        2
    } else if v <= 0xffff {
        3
    } else {
        4
    }
}

/// The number of bytes of a text.
fn encoded_len(s: &[char]) -> (r: usize)
    requires
        encode_utf8(s@).len() <= usize::MAX,
    ensures
        r == encode_utf8(s@).len(),
{
    let n = s.len();
    let mut i: usize = n;
    let mut total: usize = 0;
    assert(s@.skip(n as int) =~= Seq::<char>::empty());
    while i > 0
        invariant
            i <= n == s@.len(),
            total == encode_utf8(s@.skip(i as int)).len(),
            encode_utf8(s@).len() <= usize::MAX,
        decreases i,
    {
        i = i - 1;
        let ghost rest = s@.skip(i as int);
        proof {
            assert(rest.drop_first() =~= s@.skip(i + 1));
            lemma_encode_concat(s@.take(i as int), rest);
            assert(s@.take(i as int) + rest =~= s@);
        }
        total = total + char_len(s[i]);
    }
    assert(s@.skip(0) =~= s@);
    total
}

// ---------------------------------------------------------------------------
// Cutting
// ---------------------------------------------------------------------------

fn single(c: char) -> (r: Vec<char>)
    ensures
        r@ == seq![c],
{
    let mut v: Vec<char> = Vec::new();
    v.push(c);
    assert(v@ =~= seq![c]);
    v
}

fn closing_tag_of(body: &[char]) -> (r: Vec<char>)
    ensures
        r@ == closing_tag(body@),
{
    let name = match leading_word(body) {
        Some(w) => w,
        None => body,
    };
    let mut tag = chars_of("</");
    let mut copy = copy_of(name);
    tag.append(&mut copy);
    let mut end = chars_of(">");
    tag.append(&mut end);
    tag
}

/// Where the first message of `s` begins and ends.
fn locate_message(s: &[char]) -> (r: Option<(usize, usize)>)
    ensures
        match r {
            Some((start, end)) => message_at(s@) == Some((start as int, end as int)),
            None => message_at(s@) is None,
        },
{
    let n = s.len();
    let open = single('<');
    let close = single('>');
    let start = match position_of(s, open.as_slice()) {
        Some(k) => k,
        None => return None,
    };
    let suffix = slice_subrange(s, start, n);
    assert(suffix@ =~= s@.skip(start as int));
    let m = suffix.len();
    let e = match position_of(suffix, close.as_slice()) {
        Some(k) => k,
        None => return None,
    };
    proof {
        lemma_find(s@, seq!['<']);
        lemma_find(suffix@, seq!['>']);
        assert(s@.subrange(start as int, start + 1)[0] == s@[start as int]);
        assert(suffix@.subrange(e as int, e + 1)[0] == suffix@[e as int]);
        assert(e > 0);
        reveal_strlit("/>");
    }
    let tag = slice_subrange(suffix, 0, e + 1);
    assert(tag@ =~= suffix@.take(e + 1));
    let mark = chars_of("/>");
    if stands_at(tag, mark.as_slice(), e - 1) {
        return Some((start, start + e + 1));
    }
    let body = slice_subrange(suffix, 1, e);
    let token = closing_tag_of(body);
    match position_of(suffix, token.as_slice()) {
        Some(k) => Some((start, start + k + token.len())),
        None => None,
    }
}

/// The first message of the buffer and the number of bytes up to its end;
/// nothing where the buffer is not valid UTF-8 or holds no whole message.
pub fn extract_one_xml_message(buffer: &[u8]) -> (r: Option<(String, usize)>)
    ensures
        match r {
            Some((message, used)) => {
                let s = decode_utf8(buffer@);
                &&& valid_utf8(buffer@)
                &&& message_at(s) matches Some((start, end)) && {
                    &&& message@ == s.subrange(start, end)
                    &&& used == encode_utf8(s.take(end)).len()
                    &&& 0 < used <= buffer@.len()
                    &&& buffer@.skip(used as int) == encode_utf8(s.skip(end))
                }
            },
            None => !valid_utf8(buffer@) || message_at(decode_utf8(buffer@)) is None,
        },
{
    let size = buffer.len();
    let text = match utf8_text(buffer) {
        Some(t) => t,
        None => return None,
    };
    let s = chars_of(text.as_str());
    match locate_message(s.as_slice()) {
        Some((start, end)) => {
            proof {
                lemma_message_bounds(s@);
                decode_utf8_encode_utf8(buffer@);
                lemma_encode_concat(s@.take(end as int), s@.skip(end as int));
                assert(s@.take(end as int) + s@.skip(end as int) =~= s@);
                let head = s@.take(end as int);
                assert(encode_scalar(head[0] as u32).len() >= 1);
                assert(encode_utf8(head).len() >= 1);
            }
            let head = slice_subrange(s.as_slice(), 0, end);
            assert(head@ =~= s@.take(end as int));
            let used = encoded_len(head);
            assert(buffer@.skip(used as int) =~= encode_utf8(s@.skip(end as int)));
            let message = slice_subrange(s.as_slice(), start, end);
            Some((string_of(message), used))
        },
        None => None,
    }
}

/// Takes the whole messages out of the buffer, in order, and leaves what
/// follows them.
pub fn take_messages(buffer: &mut Vec<u8>) -> (r: Vec<String>)
    ensures
        valid_utf8(old(buffer)@) ==> texts(r@) == messages(decode_utf8(old(buffer)@))
            && final(buffer)@ == encode_utf8(unfinished(decode_utf8(old(buffer)@))),
        !valid_utf8(old(buffer)@) ==> r@.len() == 0 && final(buffer)@ == old(buffer)@,
{
    let ghost before = buffer@;
    let ghost whole = decode_utf8(before);
    let mut out: Vec<String> = Vec::new();
    assert(texts(out@) =~= Seq::<Seq<char>>::empty());
    proof {
        if valid_utf8(before) {
            decode_utf8_encode_utf8(before);
        }
        assert(texts(out@) + messages(whole) =~= messages(whole));
    }
    loop
        invariant
            valid_utf8(before) ==> {
                &&& valid_utf8(buffer@)
                &&& buffer@ == encode_utf8(decode_utf8(buffer@))
                &&& texts(out@) + messages(decode_utf8(buffer@)) == messages(decode_utf8(before))
                &&& unfinished(decode_utf8(buffer@)) == unfinished(decode_utf8(before))
            },
            !valid_utf8(before) ==> out@.len() == 0 && buffer@ == before,
        ensures
            valid_utf8(before) ==> {
                &&& texts(out@) == messages(decode_utf8(before))
                &&& buffer@ == encode_utf8(unfinished(decode_utf8(before)))
            },
            !valid_utf8(before) ==> out@.len() == 0 && buffer@ == before,
        decreases buffer@.len(),
    {
        let ghost now = decode_utf8(buffer@);
        match extract_one_xml_message(buffer.as_slice()) {
            Some((message, used)) => {
                let ghost sent = texts(out@);
                let ghost text = message@;
                let ghost end = match message_at(now) {
                    Some((_, end)) => end,
                    None => 0,
                };
                let rest = buffer.split_off(used);
                *buffer = rest;
                out.push(message);
                proof {
                    assert(texts(out@) =~= sent.push(text));
                    encode_utf8_valid_utf8(now.skip(end));
                    encode_utf8_decode_utf8(now.skip(end));
                    assert(sent.push(text) + messages(now.skip(end)) =~= sent + (seq![text]
                        + messages(now.skip(end))));
                }
            },
            None => {
                proof {
                    if valid_utf8(before) {
                        assert(texts(out@) + Seq::<Seq<char>>::empty() =~= texts(out@));
                    }
                }
                break;
            },
        }
    }
    out
}

// ---------------------------------------------------------------------------
// Laws
// ---------------------------------------------------------------------------

/// What is found in a text is found at the same place in a longer text.
proof fn lemma_find_extends(a: Seq<char>, b: Seq<char>, pat: Seq<char>)
    requires
        find(a, pat) is Some,
    ensures
        find(a + b, pat) == find(a, pat),
{
    lemma_find(a, pat);
    lemma_find(a + b, pat);
    let k = find(a, pat)->0;
    assert((a + b).subrange(k, k + pat.len()) =~= a.subrange(k, k + pat.len()));
    assert(occurs_at(a + b, pat, k));
    let j = find(a + b, pat)->0;
    if j < k {
        assert((a + b).subrange(j, j + pat.len()) =~= a.subrange(j, j + pat.len()));
        assert(occurs_at(a, pat, j));
    }
}

/// A whole message is cut out the same way, whatever bytes follow.
pub proof fn law_message_stands(a: Seq<char>, b: Seq<char>)
    requires
        message_at(a) is Some,
    ensures
        message_at(a + b) == message_at(a),
{
    lemma_find(a, seq!['<']);
    lemma_find_extends(a, b, seq!['<']);
    let start = find(a, seq!['<'])->0;
    let suffix = a.skip(start);
    assert((a + b).skip(start) =~= suffix + b);
    lemma_find(suffix, seq!['>']);
    lemma_find_extends(suffix, b, seq!['>']);
    let e = find(suffix, seq!['>'])->0;
    assert((suffix + b).take(e + 1) =~= suffix.take(e + 1));
    if !ends(suffix.take(e + 1), "/>"@) {
        assert(e >= 1) by {
            assert(suffix.subrange(e, e + 1)[0] == suffix[e]);
            assert(a.subrange(start, start + 1)[0] == a[start]);
        }
        assert((suffix + b).subrange(1, e) =~= suffix.subrange(1, e));
        lemma_find_extends(suffix, b, closing_tag(suffix.subrange(1, e)));
    }
}

/// It makes no difference how the stream is cut into pieces: the messages of
/// two pieces in one are those of the first, then those of what it left
/// unfinished with the second behind it.
pub proof fn law_pieces_do_not_matter(a: Seq<char>, b: Seq<char>)
    ensures
        messages(a + b) == messages(a) + messages(unfinished(a) + b),
        unfinished(a + b) == unfinished(unfinished(a) + b),
    decreases a.len(),
{
    lemma_message_bounds(a);
    match message_at(a) {
        Some((start, end)) => {
            law_message_stands(a, b);
            assert((a + b).subrange(start, end) =~= a.subrange(start, end));
            assert((a + b).skip(end) =~= a.skip(end) + b);
            law_pieces_do_not_matter(a.skip(end), b);
            assert(messages(a + b) =~= messages(a) + messages(unfinished(a) + b));
        },
        None => {
            assert(messages(a) + messages(a + b) =~= messages(a + b));
        },
    }
}

/// What is left unfinished holds no whole message.
pub proof fn law_unfinished_has_no_message(s: Seq<char>)
    ensures
        message_at(unfinished(s)) is None,
    decreases s.len(),
{
    lemma_message_bounds(s);
    match message_at(s) {
        Some((_, end)) => {
            law_unfinished_has_no_message(s.skip(end));
        },
        None => {},
    }
}

proof fn lemma_messages_of(noise: Seq<char>, message: Seq<char>, rest: Seq<char>)
    requires
        message_at(noise + message + rest) == Some(
            (noise.len() as int, noise.len() as int + message.len()),
        ),
    ensures
        messages(noise + message + rest) == seq![message] + messages(rest),
{
    let s = noise + message + rest;
    let start = noise.len() as int;
    let end = start + message.len();
    assert(s.subrange(start, end) =~= message);
    assert(s.skip(end) =~= rest);
}

/// A tag that closes itself is a message; whatever stands in front of it without
/// a tag is passed over, and whatever follows makes no difference.
pub proof fn law_closed_tag_is_a_message(noise: Seq<char>, body: Seq<char>, rest: Seq<char>)
    requires
        !noise.contains('<'),
        !body.contains('>'),
    ensures
        ({
            let tag = seq!['<'] + body + seq!['/', '>'];
            let s = noise + tag + rest;
            &&& message_at(s) == Some((noise.len() as int, noise.len() as int + tag.len()))
            &&& messages(s) == seq![tag] + messages(rest)
        }),
{
    let tag = seq!['<'] + body + seq!['/', '>'];
    let s = noise + tag + rest;
    let start = noise.len() as int;
    let front = seq!['<'] + body + seq!['/'];
    let suffix = tag + rest;
    assert(find(s, seq!['<']) == Some(start)) by {
        let behind = body + seq!['/', '>'] + rest;
        law_split_at_the_first(noise, '<', behind);
        assert(s =~= noise + seq!['<'] + behind);
    }
    assert(s.skip(start) =~= suffix);
    let e = front.len() as int;
    assert(find(suffix, seq!['>']) == Some(e)) by {
        assert forall|i: int| 0 <= i < front.len() implies front[i] != '>' by {
            if 1 <= i < 1 + body.len() {
                assert(body.contains(body[i - 1]));
            }
        }
        law_split_at_the_first(front, '>', rest);
        assert(suffix =~= front + seq!['>'] + rest);
    }
    assert(suffix.take(e + 1) =~= tag);
    assert(ends(tag, "/>"@)) by {
        reveal_strlit("/>");
        assert("/>"@ =~= seq!['/', '>']);
        law_parts_occur(seq!['<'] + body, "/>"@, Seq::empty());
        assert(seq!['<'] + body + "/>"@ =~= tag);
    }
    lemma_messages_of(noise, tag, rest);
}

/// An element is a message from its opening tag to the first closing tag of its
/// name; whatever stands in front of it without a tag is passed over, and
/// whatever follows makes no difference.
pub proof fn law_element_is_a_message(
    noise: Seq<char>,
    name: Seq<char>,
    attributes: Seq<char>,
    content: Seq<char>,
    rest: Seq<char>,
)
    requires
        !noise.contains('<'),
        name.len() > 0,
        !(name + attributes).contains('>'),
        (name + attributes).last() != '/',
        forall|i: int| 0 <= i < name.len() ==> !is_white(#[trigger] name[i]),
        attributes.len() == 0 || is_white(attributes[0]),
        ({
            let close = "</"@ + name + ">"@;
            let open = seq!['<'] + (name + attributes) + seq!['>'];
            forall|k: int|
                k < open.len() + content.len() ==> !#[trigger] occurs_at(
                    open + content + close + rest,
                    close,
                    k,
                )
        }),
    ensures
        ({
            let close = "</"@ + name + ">"@;
            let open = seq!['<'] + (name + attributes) + seq!['>'];
            let element = open + content + close;
            let s = noise + element + rest;
            &&& message_at(s) == Some(
                (noise.len() as int, noise.len() as int + element.len()),
            )
            &&& messages(s) == seq![element] + messages(rest)
        }),
{
    let close = "</"@ + name + ">"@;
    let body = name + attributes;
    let open = seq!['<'] + body + seq!['>'];
    let element = open + content + close;
    let s = noise + element + rest;
    let start = noise.len() as int;
    let front = seq!['<'] + body;
    law_split_at_the_first(noise, '<', body + seq!['>'] + content + close + rest);
    assert(s =~= noise + seq!['<'] + (body + seq!['>'] + content + close + rest));
    let suffix = s.skip(start);
    assert(suffix =~= open + content + close + rest);
    assert(suffix =~= front + seq!['>'] + (content + close + rest));
    assert forall|i: int| 0 <= i < front.len() implies front[i] != '>' by {
        if i >= 1 {
            assert(body.contains(body[i - 1]));
        }
    }
    law_split_at_the_first(front, '>', content + close + rest);
    let e = front.len() as int;
    assert(suffix.take(e + 1) =~= open);
    reveal_strlit("/>");
    assert(!ends(open, "/>"@)) by {
        if ends(open, "/>"@) {
            let at = open.len() - 2;
            assert(open.subrange(at, at + 2)[0] == "/>"@[0]);
            assert(open[at] == body.last());
        }
    }
    assert(suffix.subrange(1, e) =~= body);
    law_first_word(Seq::empty(), name, attributes);
    assert(Seq::<char>::empty() + name + attributes =~= body);
    assert(closing_tag(body) == close);
    let k = (open + content).len() as int;
    assert(suffix.subrange(k, k + close.len()) =~= close);
    assert(occurs_at(suffix, close, k));
    lemma_find(suffix, close);
    let f = find(suffix, close)->0;
    if f < k {
        assert(!occurs_at(open + content + close + rest, close, f));
    }
    assert(message_at(s) == Some((start, start + k + close.len())));
    lemma_messages_of(noise, element, rest);
}

/// A text without a tag holds no message.
pub proof fn law_no_message_without_a_tag(s: Seq<char>)
    requires
        !s.contains('<') || !s.contains('>'),
    ensures
        message_at(s) is None,
        messages(s).len() == 0,
        unfinished(s) == s,
{
    if !s.contains('<') {
        law_split_at_the_first(s, '<', Seq::empty());
    } else {
        lemma_find(s, seq!['<']);
        if let Some(start) = find(s, seq!['<']) {
            let suffix = s.skip(start);
            assert forall|i: int| 0 <= i < suffix.len() implies suffix[i] != '>' by {
                assert(s.contains(s[start + i]));
            }
            law_split_at_the_first(suffix, '>', Seq::empty());
        }
    }
}

} // verus!
