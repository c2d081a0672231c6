//! The private keys of GitHub Apps: the armor that they come in, and how deeply
//! what is in it may nest.
use vstd::prelude::*;

use crate::crypto::{base64_decoded, decode_standard};
use crate::text::{chars_of, is_whitespace, string_of, text_option, whitespace};

verus! {

// ---------------------------------------------------------------------------
// Nesting

/// The number that bytes stand for, the most significant one first.
pub open spec fn big_endian(bytes: Seq<u8>) -> nat
    decreases bytes.len(),
{
    if bytes.len() == 0 {
        0
    } else {
        big_endian(bytes.drop_last()) * 256 + bytes.last() as nat
    }
}

/// How many bytes the first tag among bytes in DER takes, with what is left of it
/// from `at` on; nothing where it does not end.
pub open spec fn tag_length(bytes: Seq<u8>, at: int) -> Option<int>
    decreases bytes.len() - at,
{
    if at >= bytes.len() {
        None
    } else if bytes[at] < 128 {
        Some(at + 1)
    } else {
        tag_length(bytes, at + 1)
    }
}

/// How many bytes the first tag among bytes in DER takes: one, unless its number does
/// not fit in that.
pub open spec fn first_tag(bytes: Seq<u8>) -> Option<int> {
    if bytes.len() == 0 {
        None
    } else if bytes[0] % 32 == 31 {
        tag_length(bytes, 1)
    } else {
        Some(1)
    }
}

/// The length of the first header among bytes in DER, and of the body that follows
/// it. A length takes eight bytes at most.
pub open spec fn header(bytes: Seq<u8>) -> Option<(nat, nat)> {
    match first_tag(bytes) {
        None => None,
        Some(at) => if at >= bytes.len() {
            None
        } else if bytes[at] < 128 {
            Some(((at + 1) as nat, bytes[at] as nat))
        } else {
            let n = bytes[at] - 128;
            if n > 8 || bytes.len() < at + 1 + n {
                None
            } else {
                Some(((at + 1 + n) as nat, big_endian(bytes.subrange(at + 1, at + 1 + n))))
            }
        },
    }
}

/// The number of a tag is that of a sequence or of a set.
pub open spec fn groups(bytes: Seq<u8>, length: int) -> bool {
    if length == 1 {
        bytes[0] % 32 == 16 || bytes[0] % 32 == 17
    } else {
        &&& bytes[length - 1] == 16 || bytes[length - 1] == 17
        &&& forall|i: int| 1 <= i < length - 1 ==> #[trigger] bytes[i] == 128
    }
}

/// What has the first of these tags is read as other elements: it is a sequence or a
/// set, or it has a tag of its own and is constructed.
pub open spec fn nesting_tag(bytes: Seq<u8>) -> bool {
    if bytes[0] < 64 {
        groups(bytes, first_tag(bytes)->0)
    } else {
        bytes[0] / 32 % 2 == 1
    }
}

/// Bytes whose elements in DER lie at most `depth` levels deep, as far as they are
/// elements.
pub open spec fn nests_within(bytes: Seq<u8>, depth: nat) -> bool
    decreases bytes.len(),
{
    match header(bytes) {
        None => true,
        // No header is empty, and a body that breaks off is not read.
        Some((before, length)) => if before == 0 || before + length > bytes.len() {
            true
        } else {
            &&& nesting_tag(bytes) ==> depth > 0 && nests_within(
                bytes.subrange(before as int, (before + length) as int),
                (depth - 1) as nat,
            )
            &&& nests_within(bytes.skip((before + length) as int), depth)
        },
    }
}

/// A header among bytes: its length, that of the body that follows it, and whether
/// the body is read as other elements.
struct Header {
    before: usize,
    length: u64,
    nesting: bool,
}

/// The end of the first tag among the bytes from `from` to `to`, and whether its
/// number is that of a sequence or of a set.
fn read_tag(bytes: &[u8], from: usize, to: usize) -> (r: Option<(usize, bool)>)
    requires
        from < to <= bytes@.len(),
    ensures
        ({
            let part = bytes@.subrange(from as int, to as int);
            match r {
                Some((end, grouping)) => {
                    &&& first_tag(part) == Some(end - from)
                    &&& from < end <= to
                    &&& grouping == groups(part, end - from)
                },
                None => first_tag(part) is None,
            }
        }),
{
    let ghost part = bytes@.subrange(from as int, to as int);
    let first: u8 = bytes[from] % 32;
    proof {
        assert(part[0] == bytes@[from as int]);
    }
    if first != 31 {
        return Some((from + 1, first == 16 || first == 17));
    }
    let mut at: usize = from + 1;
    let mut small: bool = true;
    while at < to && bytes[at] >= 128
        invariant
            from < at <= to <= bytes@.len(),
            part == bytes@.subrange(from as int, to as int),
            tag_length(part, 1) == tag_length(part, at - from),
            small == forall|i: int| 1 <= i < at - from ==> #[trigger] part[i] == 128,
        decreases to - at,
    {
        proof {
            assert(part[at - from] == bytes@[at as int]);
        }
        if bytes[at] != 128 {
            small = false;
        }
        at += 1;
    }
    if at == to {
        return None;
    }
    proof {
        assert(part[at - from] == bytes@[at as int]);
        assert(tag_length(part, at - from) == Some(at - from + 1));
    }
    Some((at + 1, small && (bytes[at] == 16 || bytes[at] == 17)))
}

/// The first header among the bytes from `from` to `to`.
fn read_header(bytes: &[u8], from: usize, to: usize) -> (r: Option<Header>)
    requires
        from < to <= bytes@.len(),
    ensures
        ({
            let part = bytes@.subrange(from as int, to as int);
            match r {
                Some(found) => {
                    &&& header(part) == Some((found.before as nat, found.length as nat))
                    &&& 0 < found.before <= to - from
                    &&& found.nesting == nesting_tag(part)
                },
                None => header(part) is None,
            }
        }),
{
    let ghost part = bytes@.subrange(from as int, to as int);
    let (at, grouping): (usize, bool) = match read_tag(bytes, from, to) {
        Some(found) => found,
        None => {
            return None;
        },
    };
    if at >= to {
        return None;
    }
    proof {
        assert(part[0] == bytes@[from as int]);
        assert(part[at - from] == bytes@[at as int]);
    }
    let tag: u8 = bytes[from];
    let nesting: bool = if tag < 64 {
        grouping
    } else {
        tag / 32 % 2 == 1
    };
    let first: u8 = bytes[at];
    if first < 128 {
        return Some(Header { before: at + 1 - from, length: first as u64, nesting });
    }
    let n: usize = (first - 128) as usize;
    if n > 8 || to - at < 1 + n {
        return None;
    }
    let mut length: u128 = 0;
    let mut limit: u128 = 1;
    let mut k: usize = 0;
    let ghost start = at + 1 - from;
    proof {
        assert(part.subrange(start as int, start as int) =~= Seq::empty());
    }
    while k < n
        invariant
            k <= n <= 8,
            from < at,
            1 + n <= to - at,
            to <= bytes@.len(),
            start == at + 1 - from,
            part == bytes@.subrange(from as int, to as int),
            length == big_endian(part.subrange(start as int, start + k)),
            length < limit,
            k == 0 ==> limit == 1,
            k == 1 ==> limit == 0x100,
            k == 2 ==> limit == 0x1_0000,
            k == 3 ==> limit == 0x100_0000,
            k == 4 ==> limit == 0x1_0000_0000,
            k == 5 ==> limit == 0x100_0000_0000,
            k == 6 ==> limit == 0x1_0000_0000_0000,
            k == 7 ==> limit == 0x100_0000_0000_0000,
            k == 8 ==> limit == 0x1_0000_0000_0000_0000,
        decreases n - k,
    {
        proof {
            let next = part.subrange(start as int, start + k + 1);
            assert(next.drop_last() =~= part.subrange(start as int, start + k));
            assert(next.last() == bytes@[at + 1 + k]);
        }
        length = length * 256 + bytes[at + 1 + k] as u128;
        limit = limit * 256;
        k += 1;
    }
    Some(Header { before: at + 1 + n - from, length: length as u64, nesting })
}

/// Whether the elements among the bytes from `from` to `to` lie at most `depth`
/// levels deep.
fn nests(bytes: &[u8], from: usize, to: usize, depth: u8) -> (r: bool)
    requires
        from <= to <= bytes@.len(),
    ensures
        r == nests_within(bytes@.subrange(from as int, to as int), depth as nat),
    decreases depth,
{
    let ghost all = bytes@.subrange(from as int, to as int);
    let mut at: usize = from;
    while at < to
        invariant
            from <= at <= to <= bytes@.len(),
            all == bytes@.subrange(from as int, to as int),
            nests_within(all, depth as nat) == nests_within(
                bytes@.subrange(at as int, to as int),
                depth as nat,
            ),
        decreases to - at,
    {
        let ghost part = bytes@.subrange(at as int, to as int);
        let found: Header = match read_header(bytes, at, to) {
            Some(found) => found,
            None => {
                return true;
            },
        };
        let before: usize = found.before;
        if found.length > (to - at - before) as u64 {
            return true;
        }
        let length: usize = found.length as usize;
        let end: usize = at + before + length;
        proof {
            assert(part.subrange(before as int, before + length) =~= bytes@.subrange(
                at + before,
                end as int,
            ));
            assert(part.skip(before + length) =~= bytes@.subrange(end as int, to as int));
        }
        if found.nesting {
            if depth == 0 || !nests(bytes, at + before, end, depth - 1) {
                return false;
            }
        }
        at = end;
    }
    proof {
        assert(bytes@.subrange(at as int, to as int) =~= Seq::empty());
    }
    true
}

// ---------------------------------------------------------------------------
// Armor

/// Where a marker ends that is looked for from a position on, of which the first
/// characters were found before it. A character that is not the next one of the
/// marker begins the search anew behind it.
pub open spec fn marker_end(text: Seq<char>, marker: Seq<char>, at: int, found: int) -> Option<int>
    decreases text.len() - at,
{
    if found >= marker.len() {
        Some(at)
    } else if at >= text.len() {
        None
    } else if text[at] == marker[found] {
        marker_end(text, marker, at + 1, found + 1)
    } else {
        marker_end(text, marker, at + 1, 0)
    }
}

fn find_marker(text: &[char], marker: &[char], from: usize) -> (r: Option<usize>)
    requires
        from <= text@.len(),
    ensures
        match r {
            Some(end) => marker_end(text@, marker@, from as int, 0) == Some(end as int) && from
                + marker@.len() <= end <= text@.len(),
            None => marker_end(text@, marker@, from as int, 0) is None,
        },
{
    let mut at: usize = from;
    let mut found: usize = 0;
    while found < marker.len() && at < text.len()
        invariant
            from <= at <= text@.len(),
            found <= marker@.len(),
            from + found <= at,
            marker_end(text@, marker@, from as int, 0) == marker_end(
                text@,
                marker@,
                at as int,
                found as int,
            ),
        decreases text@.len() - at,
    {
        if text[at] == marker[found] {
            found += 1;
        } else {
            found = 0;
        }
        at += 1;
    }
    if found == marker.len() {
        Some(at)
    } else {
        None
    }
}

/// Space behind the first armor line.
pub open spec fn spacing(c: char) -> bool {
    c == ' ' || c == '\t' || c == '\r' || c == '\n'
}

/// Where the space ends that stands from a position on.
pub open spec fn space_end(text: Seq<char>, at: int) -> int
    decreases text.len() - at,
{
    if at < text.len() && spacing(text[at]) {
        space_end(text, at + 1)
    } else {
        at
    }
}

fn skip_space(text: &[char], from: usize) -> (r: usize)
    requires
        from <= text@.len(),
    ensures
        r == space_end(text@, from as int),
        from <= r <= text@.len(),
{
    let mut at: usize = from;
    while at < text.len() && (text[at] == ' ' || text[at] == '\t' || text[at] == '\r' || text[at]
        == '\n')
        invariant
            from <= at <= text@.len(),
            space_end(text@, from as int) == space_end(text@, at as int),
        decreases text@.len() - at,
    {
        at += 1;
    }
    at
}

/// What stands between the first armor lines of a text; nothing where it has none.
pub open spec fn armored_part(text: Seq<char>) -> Option<Seq<char>> {
    match marker_end(text, "-----BEGIN "@, 0, 0) {
        None => None,
        Some(tag) => match marker_end(text, "-----"@, tag, 0) {
            None => None,
            Some(line) => {
                let start = space_end(text, line);
                match marker_end(text, "-----END "@, start, 0) {
                    None => None,
                    Some(end) => Some(text.subrange(start, end - 9)),
                }
            },
        },
    }
}

/// What stands between the first armor lines of a text.
fn find_armored_part<'a>(text: &'a [char]) -> (r: Option<&'a [char]>)
    ensures
        match r {
            Some(part) => armored_part(text@) == Some(part@),
            None => armored_part(text@) is None,
        },
{
    let first: Vec<char> = chars_of("-----BEGIN ");
    let dashes: Vec<char> = chars_of("-----");
    let last: Vec<char> = chars_of("-----END ");
    proof {
        reveal_strlit("-----END ");
    }
    let tag: usize = match find_marker(text, first.as_slice(), 0) {
        Some(tag) => tag,
        None => {
            return None;
        },
    };
    let line: usize = match find_marker(text, dashes.as_slice(), tag) {
        Some(line) => line,
        None => {
            return None;
        },
    };
    let start: usize = skip_space(text, line);
    match find_marker(text, last.as_slice(), start) {
        Some(end) => Some(vstd::slice::slice_subrange(text, start, end - 9)),
        None => None,
    }
}

/// The part of what is in armor that encodes bytes: what follows the first blank
/// line, which ends the headers, or all of it.
pub open spec fn encoded_part(part: Seq<char>) -> Seq<char> {
    match marker_end(part, "\n\n"@, 0, 0) {
        Some(end) => part.skip(end),
        None => match marker_end(part, "\r\n\r\n"@, 0, 0) {
            Some(end) => part.skip(end),
            None => part,
        },
    }
}

/// Where the part of what is in armor begins that encodes bytes.
fn encoded_start(part: &[char]) -> (r: usize)
    ensures
        r <= part@.len(),
        encoded_part(part@) == part@.skip(r as int),
{
    let blank: Vec<char> = chars_of("\n\n");
    if let Some(end) = find_marker(part, blank.as_slice(), 0) {
        return end;
    }
    let blank: Vec<char> = chars_of("\r\n\r\n");
    if let Some(end) = find_marker(part, blank.as_slice(), 0) {
        return end;
    }
    proof {
        assert(part@.skip(0) =~= part@);
    }
    0
}

/// A text without the white space in it.
pub open spec fn packed(text: Seq<char>) -> Seq<char> {
    text.filter(|c: char| !whitespace(c))
}

/// The characters from a position on, without the white space among them.
fn pack(text: &[char], from: usize) -> (r: String)
    requires
        from <= text@.len(),
    ensures
        r@ == packed(text@.skip(from as int)),
{
    let ghost rest = text@.skip(from as int);
    let mut out: Vec<char> = Vec::new();
    let mut i: usize = from;
    proof {
        assert(rest.take(0) =~= Seq::empty());
        assert(packed(rest.take(0)) =~= Seq::empty());
    }
    while i < text.len()
        invariant
            from <= i <= text@.len(),
            rest == text@.skip(from as int),
            out@ == packed(rest.take(i - from)),
        decreases text@.len() - i,
    {
        let c: char = text[i];
        proof {
            let next = rest.take(i + 1 - from);
            assert(next.drop_last() =~= rest.take(i - from));
            assert(next.last() == c);
            reveal(Seq::filter);
        }
        if !is_whitespace(c) {
            out.push(c);
        }
        i += 1;
    }
    proof {
        assert(rest.take(rest.len() as int) =~= rest);
    }
    string_of(out.as_slice())
}

/// How deeply a key may nest. One that can be used nests a few levels deep.
pub const MAX_KEY_DEPTH: u8 = 64;

/// The encoded bytes that a text holds in armor; nothing where it holds none.
pub open spec fn encoded_key(text: Seq<char>) -> Option<Seq<char>> {
    match armored_part(text) {
        Some(part) => Some(packed(encoded_part(part))),
        None => None,
    }
}

/// A text holds no bytes in armor whose elements nest too deeply.
pub open spec fn readable_key(text: Seq<char>) -> bool {
    match encoded_key(text) {
        Some(encoded) => match base64_decoded(encoded) {
            Some(bytes) => nests_within(bytes, MAX_KEY_DEPTH as nat),
            None => true,
        },
        None => true,
    }
}

/// The encoded bytes that a text holds in armor.
pub fn find_encoded_key(text: &str) -> (r: Option<String>)
    ensures
        text_option(r) == encoded_key(text@),
{
    let chars: Vec<char> = chars_of(text);
    match find_armored_part(chars.as_slice()) {
        Some(part) => {
            let start: usize = encoded_start(part);
            Some(pack(part, start))
        },
        None => None,
    }
}

/// Whether decoded bytes, where there are any, do not nest too deeply.
pub fn nests_shallowly(decoded: &Option<Vec<u8>>) -> (r: bool)
    ensures
        r == match *decoded {
            Some(bytes) => nests_within(bytes@, MAX_KEY_DEPTH as nat),
            None => true,
        },
{
    match decoded {
        Some(bytes) => {
            proof {
                assert(bytes@.subrange(0, bytes@.len() as int) =~= bytes@);
            }
            nests(bytes.as_slice(), 0, bytes.len(), MAX_KEY_DEPTH)
        },
        None => true,
    }
}

/// Whether a text holds no key that nests too deeply.
pub fn is_readable_key(text: &str) -> (r: bool)
    ensures
        r == readable_key(text@),
{
    match find_encoded_key(text) {
        Some(encoded) => nests_shallowly(&decode_standard(encoded.as_str())),
        None => true,
    }
}

// ---------------------------------------------------------------------------
// What is read of a key

/// A marker is found behind a text in which its first character does not occur.
pub proof fn markers_are_found_behind_other_text(
    front: Seq<char>,
    marker: Seq<char>,
    rest: Seq<char>,
    at: int,
)
    requires
        marker.len() > 0,
        0 <= at <= front.len(),
        forall|i: int| 0 <= i < front.len() ==> #[trigger] front[i] != marker[0],
    ensures
        marker_end(front + marker + rest, marker, at, 0) == Some(
            (front.len() + marker.len()) as int,
        ),
        marker_end(front, marker, at, 0) is None,
    decreases front.len() - at,
{
    let text = front + marker + rest;
    if at < front.len() {
        assert(text[at] == front[at]);
        markers_are_found_behind_other_text(front, marker, rest, at + 1);
    } else {
        lemma_marker_matches(front, marker, rest, 0);
    }
}

proof fn lemma_marker_matches(
    front: Seq<char>,
    marker: Seq<char>,
    rest: Seq<char>,
    found: int,
)
    requires
        0 <= found <= marker.len(),
    ensures
        marker_end(front + marker + rest, marker, front.len() + found, found) == Some(
            (front.len() + marker.len()) as int,
        ),
    decreases marker.len() - found,
{
    if found < marker.len() {
        assert((front + marker + rest)[front.len() + found] == marker[found]);
        lemma_marker_matches(front, marker, rest, found + 1);
    }
}

/// A sequence nests one level deeper than what is in it; bytes in an element that is none do
/// not nest, whatever they are; nothing at all, and a body that breaks off, nests nowhere.
pub proof fn sequences_nest_one_level_deeper(body: Seq<u8>, depth: nat)
    requires
        body.len() < 128,
    ensures
        nests_within(seq![0x30u8, body.len() as u8] + body, depth + 1) == nests_within(body, depth),
        !nests_within(seq![0x30u8, body.len() as u8] + body, 0),
        nests_within(seq![0xA0u8, body.len() as u8] + body, depth + 1) == nests_within(body, depth),
        nests_within(seq![0x04u8, body.len() as u8] + body, depth),
        nests_within(Seq::empty(), depth),
        body.len() < 127 ==> nests_within(seq![0x30u8, (body.len() + 1) as u8] + body, depth),
{
    let n = body.len() as int;
    assert(header(Seq::<u8>::empty()) is None);
    assert(nests_within(Seq::<u8>::empty(), depth));
    assert(nests_within(Seq::<u8>::empty(), depth + 1));
    let sequence = seq![0x30u8, n as u8] + body;
    let tagged = seq![0xA0u8, n as u8] + body;
    let plain = seq![0x04u8, n as u8] + body;
    let broken = seq![0x30u8, (n + 1) as u8] + body;
    assert(sequence.subrange(2, 2 + n) =~= body);
    assert(tagged.subrange(2, 2 + n) =~= body);
    assert(sequence.skip(2 + n) =~= Seq::<u8>::empty());
    assert(tagged.skip(2 + n) =~= Seq::<u8>::empty());
    assert(plain.skip(2 + n) =~= Seq::<u8>::empty());
    assert(sequence[0] == 0x30u8 && sequence[1] == n as u8);
    assert(tagged[0] == 0xA0u8 && tagged[1] == n as u8);
    assert(plain[0] == 0x04u8 && plain[1] == n as u8);
    assert(broken[0] == 0x30u8 && broken[1] == (n + 1) as u8);
    assert(nesting_tag(sequence) && nesting_tag(tagged) && !nesting_tag(plain));
    assert(header(sequence) == Some((2nat, n as nat)));
    assert(header(tagged) == Some((2nat, n as nat)));
    assert(header(plain) == Some((2nat, n as nat)));
    if n < 127 {
        assert(header(broken) == Some((2nat, (n + 1) as nat)));
    }
}

/// A key may nest 64 levels deep, and a text without a key in armor, or with one that cannot
/// be decoded, does no harm.
pub proof fn only_deep_keys_are_not_read(text: Seq<char>)
    ensures
        encoded_key(text) is None ==> readable_key(text),
        encoded_key(text) is Some && base64_decoded(encoded_key(text)->0) is None ==> readable_key(
            text,
        ),
        encoded_key(text) is Some && base64_decoded(encoded_key(text)->0) is Some ==> (readable_key(
            text,
        ) <==> nests_within(base64_decoded(encoded_key(text)->0)->0, 64)),
{
}

/// What stands between the armor lines of a key is found, without the space in front of it.
pub proof fn keys_are_found_between_their_lines(
    before: Seq<char>,
    tag: Seq<char>,
    body: Seq<char>,
    rest: Seq<char>,
)
    requires
        forall|i: int| 0 <= i < before.len() ==> #[trigger] before[i] != '-',
        forall|i: int| 0 <= i < tag.len() ==> #[trigger] tag[i] != '-',
        forall|i: int| 0 <= i < body.len() ==> #[trigger] body[i] != '-',
        body.len() > 0,
        !spacing(body[0]),
    ensures
        armored_part(
            before + "-----BEGIN "@ + (tag + "-----"@ + ("\n"@ + (body + "-----END "@ + rest))),
        ) == Some(body),
{
    reveal_strlit("-----BEGIN ");
    reveal_strlit("-----");
    reveal_strlit("-----END ");
    reveal_strlit("\n");
    let last = body + "-----END "@ + rest;
    let inner = "\n"@ + last;
    let middle = tag + "-----"@ + inner;
    let text = before + "-----BEGIN "@ + middle;
    let first = before + "-----BEGIN "@;
    let n = first.len() as int;
    markers_are_found_behind_other_text(before, "-----BEGIN "@, middle, 0);
    markers_are_found_behind_other_text(tag, "-----"@, inner, 0);
    lemma_marker_behind(first, middle, "-----"@, 0, 0);
    assert(first + middle =~= text);
    let line = n + tag.len() + 5;
    assert(marker_end(text, "-----"@, n, 0) == Some(line));
    assert(text[line] == '\n');
    assert(text[line + 1] == body[0]);
    assert(space_end(text, line + 1) == line + 1);
    assert(space_end(text, line) == line + 1);
    let front = first + tag + "-----"@ + "\n"@;
    assert(front + last =~= text);
    markers_are_found_behind_other_text(body, "-----END "@, rest, 0);
    lemma_marker_behind(front, last, "-----END "@, 0, 0);
    assert(text.subrange(line + 1, line + 1 + body.len()) =~= body);
}

/// A marker is found behind other text where it is found in what follows that.
proof fn lemma_marker_behind(
    front: Seq<char>,
    text: Seq<char>,
    marker: Seq<char>,
    at: int,
    found: int,
)
    requires
        0 <= at,
        0 <= found,
    ensures
        marker_end(front + text, marker, front.len() + at, found) == match marker_end(
            text,
            marker,
            at,
            found,
        ) {
            Some(end) => Some(front.len() + end),
            None => None,
        },
    decreases text.len() - at,
{
    if found < marker.len() && at < text.len() {
        assert((front + text)[front.len() + at] == text[at]);
        lemma_marker_behind(front, text, marker, at + 1, found + 1);
        lemma_marker_behind(front, text, marker, at + 1, 0);
    }
}

}
