//! What the formats promise: that what is written can be read back, and what the requests to the
//! console say.

use crate::json::{
    hex_digit, json_char, json_chars, json_string, member_views, members_text, object_text,
    redact_parsed, remove_member, without, write_object,
};
use crate::protect::ArchiveVideoRequest;
use crate::text::{
    contains_text, decimal, decimal_nat, is_blank, replace_chars, signed_text, unsigned_text,
    white_space,
};
use crate::url_text::{query_byte, query_bytes, query_text};
use vstd::prelude::*;
use vstd::utf8::*;

verus! {

/// The number that a sequence of decimal digits stands for.
pub open spec fn digits_value(s: Seq<char>) -> int
    decreases s.len(),
{
    if s.len() == 0 {
        0
    } else {
        digits_value(s.drop_last()) * 10 + (s.last() as int - '0' as int)
    }
}

/// The number that a numeral stands for: digits, or a hyphen and digits.
pub open spec fn numeral_value(s: Seq<char>) -> int {
    if s.len() > 0 && s[0] == '-' {
        -digits_value(s.drop_first())
    } else {
        digits_value(s)
    }
}

/// Whether a text is a numeral without superfluous zeros.
pub open spec fn is_numeral(s: Seq<char>) -> bool {
    let digits = if s.len() > 0 && s[0] == '-' {
        s.drop_first()
    } else {
        s
    };
    &&& digits.len() > 0
    &&& forall|i: int| 0 <= i < digits.len() ==> '0' <= #[trigger] digits[i] <= '9'
    &&& digits.len() > 1 ==> digits[0] != '0'
}

proof fn lemma_decimal_nat(n: nat)
    ensures
        digits_value(decimal_nat(n)) == n,
        decimal_nat(n).len() > 0,
        forall|i: int| 0 <= i < decimal_nat(n).len() ==> '0' <= #[trigger] decimal_nat(n)[i] <= '9',
        n > 0 ==> decimal_nat(n)[0] != '0',
        n == 0 ==> decimal_nat(n).len() == 1,
    decreases n,
{
    reveal_with_fuel(digits_value, 2);
    if n >= 10 {
        lemma_decimal_nat(n / 10);
        assert(decimal_nat(n).drop_last() =~= decimal_nat(n / 10));
    } else {
        assert(decimal_nat(n).drop_last() =~= seq![]);
    }
}

/// A decimal numeral reads back as its number, and has no superfluous zeros.
pub proof fn a_numeral_reads_back_as_its_number(n: int)
    ensures
        numeral_value(decimal(n)) == n,
        is_numeral(decimal(n)),
        forall|i: int|
            0 <= i < decimal(n).len() ==> #[trigger] decimal(n)[i] == '-' || '0' <= decimal(n)[i]
                <= '9',
{
    if n < 0 {
        lemma_decimal_nat((-n) as nat);
        assert(decimal(n).drop_first() =~= decimal_nat((-n) as nat));
    } else {
        lemma_decimal_nat(n as nat);
    }
}

/// A number is written so that it reads back as itself.
pub proof fn a_written_number_reads_back(
    signed: i64,
    unsigned: u64,
    signed_result: String,
    unsigned_result: String,
)
    requires
        call_ensures(signed_text, (signed,), signed_result),
        call_ensures(unsigned_text, (unsigned,), unsigned_result),
    ensures
        numeral_value(signed_result@) == signed,
        is_numeral(signed_result@),
        numeral_value(unsigned_result@) == unsigned,
        is_numeral(unsigned_result@),
{
    a_numeral_reads_back_as_its_number(signed as int);
    a_numeral_reads_back_as_its_number(unsigned as int);
}

/// A text is blank exactly if it holds no character but white space.
pub proof fn a_blank_text_holds_white_space_only(s: &str, result: bool)
    requires
        call_ensures(is_blank, (s,), result),
    ensures
        result <==> forall|i: int| 0 <= i < s@.len() ==> white_space(#[trigger] s@[i]),
{
}

/// A text contains another one exactly if it is that one with something before and something after.
pub proof fn a_text_contains_its_middle(
    s: &str,
    needle: &str,
    before: Seq<char>,
    after: Seq<char>,
    result: bool,
)
    requires
        call_ensures(contains_text, (s, needle), result),
    ensures
        s@ == before + needle@ + after ==> result,
        result ==> exists|at: int|
            0 <= at <= s@.len() - needle@.len() && s@ == s@.take(at) + needle@ + #[trigger] s@.skip(
                at + needle@.len(),
            ),
{
    if s@ == before + needle@ + after {
        let at = before.len() as int;
        assert(s@.subrange(at, at + needle@.len() as int) =~= needle@);
        assert(crate::text::occurs_at(s@, needle@, at));
    }
    if result {
        let at = choose|at: int| crate::text::occurs_at(s@, needle@, at);
        assert(s@ =~= s@.take(at) + needle@ + s@.skip(at + needle@.len()));
    }
}

/// Replacing characters keeps every other character where it is.
pub proof fn only_the_targets_are_replaced(s: &str, targets: &str, with: char, result: String)
    requires
        call_ensures(replace_chars, (s, targets, with), result),
    ensures
        result@.len() == s@.len(),
        forall|i: int|
            0 <= i < s@.len() ==> #[trigger] result@[i] == (if targets@.contains(s@[i]) {
                with
            } else {
                s@[i]
            }),
{
}

/// A sequence in a code, element by element.
spec fn coded<A>(code: spec_fn(A) -> Seq<char>, s: Seq<A>) -> Seq<char>
    decreases s.len(),
{
    if s.len() == 0 {
        seq![]
    } else {
        code(s[0]) + coded(code, s.drop_first())
    }
}

proof fn lemma_coded_push<A>(code: spec_fn(A) -> Seq<char>, s: Seq<A>, a: A)
    ensures
        coded(code, s.push(a)) == coded(code, s) + code(a),
    decreases s.len(),
{
    if s.len() == 0 {
        assert(s.push(a).drop_first() =~= s);
        assert(coded(code, s.push(a)) =~= coded(code, s) + code(a));
    } else {
        lemma_coded_push(code, s.drop_first(), a);
        assert(s.push(a).drop_first() =~= s.drop_first().push(a));
        assert(coded(code, s.push(a)) =~= coded(code, s) + code(a));
    }
}

/// Whether a code can be read: no code word begins another one, or with the character that ends the
/// sequence.
spec fn readable<A>(code: spec_fn(A) -> Seq<char>, stop: char) -> bool {
    &&& forall|a: A| (#[trigger] code(a)).len() > 0 && code(a)[0] != stop
    &&& forall|a: A, b: A, x: Seq<char>, y: Seq<char>|
        #![trigger code(a) + x, code(b) + y]
        code(a) + x == code(b) + y ==> a == b
}

proof fn lemma_cut_code<A>(
    code: spec_fn(A) -> Seq<char>,
    stop: char,
    s: Seq<A>,
    x: Seq<char>,
    t: Seq<A>,
    y: Seq<char>,
)
    requires
        readable(code, stop),
        x.len() > 0 && x[0] == stop,
        y.len() > 0 && y[0] == stop,
        coded(code, s) + x == coded(code, t) + y,
    ensures
        s == t,
        x == y,
    decreases s.len(),
{
    let left = coded(code, s) + x;
    let right = coded(code, t) + y;
    if s.len() == 0 {
        assert(left =~= x);
        if t.len() > 0 {
            assert(code(t[0]).len() > 0);
            assert(right[0] == code(t[0])[0]);
        } else {
            assert(right =~= y);
            assert(s =~= t);
        }
    } else if t.len() == 0 {
        assert(right =~= y);
        assert(code(s[0]).len() > 0);
        assert(left[0] == code(s[0])[0]);
    } else {
        let left_rest = coded(code, s.drop_first()) + x;
        let right_rest = coded(code, t.drop_first()) + y;
        assert(left =~= code(s[0]) + left_rest);
        assert(right =~= code(t[0]) + right_rest);
        assert(s[0] == t[0]);
        assert(left.skip(code(s[0]).len() as int) =~= left_rest);
        assert(right.skip(code(s[0]).len() as int) =~= right_rest);
        lemma_cut_code(code, stop, s.drop_first(), x, t.drop_first(), y);
        assert(s =~= seq![s[0]] + s.drop_first());
        assert(t =~= seq![t[0]] + t.drop_first());
    }
}

proof fn lemma_json_is_coded(s: Seq<char>)
    ensures
        json_chars(s) == coded(|c: char| json_char(c), s),
    decreases s.len(),
{
    let code = |c: char| json_char(c);
    if s.len() > 0 {
        lemma_json_is_coded(s.drop_last());
        lemma_coded_push(code, s.drop_last(), s.last());
        assert(s.drop_last().push(s.last()) =~= s);
    }
}

proof fn lemma_hex_digit(d: int, e: int)
    requires
        0 <= d < 16,
        0 <= e < 16,
        hex_digit(d) == hex_digit(e),
    ensures
        d == e,
{
    assert(hex_digit(d) as int == (if d < 10 {
        48 + d
    } else {
        87 + d
    }));
    assert(hex_digit(e) as int == (if e < 10 {
        48 + e
    } else {
        87 + e
    }));
}

proof fn lemma_json_char(a: char, b: char, x: Seq<char>, y: Seq<char>)
    requires
        json_char(a) + x == json_char(b) + y,
    ensures
        a == b,
{
    let s = json_char(a) + x;
    let t = json_char(b) + y;
    assert(s[0] == json_char(a)[0] && t[0] == json_char(b)[0]);
    if json_char(a).len() > 1 && json_char(b).len() > 1 {
        assert(s[1] == json_char(a)[1] && t[1] == json_char(b)[1]);
        if json_char(a).len() > 2 && json_char(b).len() > 2 {
            assert(s[4] == json_char(a)[4] && t[4] == json_char(b)[4]);
            assert(s[5] == json_char(a)[5] && t[5] == json_char(b)[5]);
            lemma_hex_digit(a as int / 16, b as int / 16);
            lemma_hex_digit(a as int % 16, b as int % 16);
        }
    }
}

proof fn lemma_json_readable()
    ensures
        readable(|c: char| json_char(c), '"'),
{
    let code = |c: char| json_char(c);
    assert forall|a: char, b: char, x: Seq<char>, y: Seq<char>|
        #![trigger code(a) + x, code(b) + y]
        code(a) + x == code(b) + y implies a == b by {
        lemma_json_char(a, b, x, y);
    }
}

/// A JSON string can be read back, and so can what follows it.
pub proof fn a_json_string_reads_back(
    s: Seq<char>,
    x: Seq<char>,
    t: Seq<char>,
    y: Seq<char>,
)
    requires
        json_string(s) + x == json_string(t) + y,
    ensures
        s == t,
        x == y,
{
    lemma_json_is_coded(s);
    lemma_json_is_coded(t);
    lemma_json_readable();
    let code = |c: char| json_char(c);
    let left = coded(code, s) + (seq!['"'] + x);
    let right = coded(code, t) + (seq!['"'] + y);
    assert((json_string(s) + x).drop_first() =~= left);
    assert((json_string(t) + y).drop_first() =~= right);
    lemma_cut_code(code, '"', s, seq!['"'] + x, t, seq!['"'] + y);
    assert((seq!['"'] + x).drop_first() =~= x);
    assert((seq!['"'] + y).drop_first() =~= y);
}

/// In a JSON string, a text without quotes, backslashes and control characters stands as it is.
pub proof fn a_plain_text_stands_in_json_as_it_is(s: Seq<char>)
    requires
        forall|i: int|
            0 <= i < s.len() ==> (#[trigger] s[i]) as int >= 0x20 && s[i] != '"' && s[i] != '\\',
    ensures
        json_string(s) == seq!['"'] + s + seq!['"'],
    decreases s.len(),
{
    if s.len() > 0 {
        let rest = s.drop_last();
        assert forall|i: int| 0 <= i < rest.len() implies (#[trigger] rest[i]) as int >= 0x20
            && rest[i] != '"' && rest[i] != '\\' by {
            assert(rest[i] == s[i]);
        }
        a_plain_text_stands_in_json_as_it_is(rest);
        assert(json_string(rest).subrange(1, rest.len() as int + 1) =~= rest);
        assert(json_chars(rest) =~= json_string(rest).subrange(
            1,
            json_string(rest).len() - 1,
        ));
        assert(json_chars(rest) =~= rest);
        assert(s[s.len() - 1] == s.last());
        assert(json_chars(s) =~= s);
    } else {
        assert(json_string(s) =~= seq!['"'] + s + seq!['"']);
    }
}

/// A number in front of a character that no numeral holds can be read back, and so can what follows.
pub proof fn a_number_in_a_text_reads_back(m: int, x: Seq<char>, n: int, y: Seq<char>)
    requires
        x.len() > 0 && x[0] != '-' && !('0' <= x[0] <= '9'),
        y.len() > 0 && y[0] != '-' && !('0' <= y[0] <= '9'),
        decimal(m) + x == decimal(n) + y,
    ensures
        m == n,
        x == y,
{
    a_numeral_reads_back_as_its_number(m);
    a_numeral_reads_back_as_its_number(n);
    let left = decimal(m) + x;
    let right = decimal(n) + y;
    let i = decimal(m).len() as int;
    let k = decimal(n).len() as int;
    assert(left[i] == x[0]);
    assert(right[k] == y[0]);
    if i < k {
        assert(right[i] == decimal(n)[i]);
    }
    if k < i {
        assert(left[k] == decimal(m)[k]);
    }
    assert(left.take(i) =~= decimal(m));
    assert(right.take(i) =~= decimal(n));
    assert(left.skip(i) =~= x);
    assert(right.skip(i) =~= y);
}

proof fn lemma_cut_prefix(p: Seq<char>, x: Seq<char>, y: Seq<char>)
    requires
        p + x == p + y,
    ensures
        x == y,
{
    assert((p + x).skip(p.len() as int) =~= x);
    assert((p + y).skip(p.len() as int) =~= y);
}

proof fn lemma_group(t: Seq<char>, v: Seq<char>, r: Seq<char>)
    ensures
        t + v + r == t + (v + r),
{
    assert(t + v + r =~= t + (v + r));
}

proof fn lemma_shift(t: Seq<char>, p: Seq<char>, v: Seq<char>, r: Seq<char>)
    ensures
        t + p + v + r == t + (p + (v + r)),
{
    assert(t + p + v + r =~= t + (p + (v + r)));
}

/// An object without members is a pair of braces, and each member that is added stands behind a
/// comma, if it is not the first, with its name as a string, a colon and its value.
pub proof fn an_object_holds_its_members(
    members: Seq<(Seq<char>, Seq<char>)>,
    member: (Seq<char>, Seq<char>),
)
    ensures
        object_text(seq![]) == seq!['{', '}'],
        object_text(seq![member]) == seq!['{'] + json_string(member.0) + seq![':'] + member.1
            + seq!['}'],
        members.len() > 0 ==> object_text(members.push(member)) == object_text(
            members,
        ).drop_last() + seq![','] + json_string(member.0) + seq![':'] + member.1 + seq!['}'],
{
    reveal_with_fuel(members_text, 2);
    assert(object_text(seq![]) =~= seq!['{', '}']);
    assert(object_text(seq![member]) =~= seq!['{'] + json_string(member.0) + seq![':'] + member.1
        + seq!['}']);
    if members.len() > 0 {
        assert(members.push(member).drop_last() =~= members);
        assert(object_text(members).drop_last() =~= seq!['{'] + members_text(members));
        assert(object_text(members.push(member)) =~= object_text(members).drop_last() + seq![',']
            + json_string(member.0) + seq![':'] + member.1 + seq!['}']);
    }
}

/// Whether a text is what stands between two values: a comma, a name as a string, and a colon.
spec fn introduces(piece: Seq<char>, name: Seq<char>) -> bool {
    &&& piece == seq![',', '"'] + name + seq!['"', ':']
    &&& forall|i: int|
        0 <= i < name.len() ==> (#[trigger] name[i]) as int >= 0x20 && name[i] != '"' && name[i]
            != '\\'
}

proof fn lemma_pieces()
    ensures
        introduces(",\"end\":"@, "end"@),
        introduces(",\"filename\":"@, "filename"@),
        introduces(",\"lens\":"@, "lens"@),
        introduces(",\"destination\":"@, "destination"@),
        introduces(",\"cameraId\":"@, "cameraId"@),
        introduces(",\"type\":"@, "type"@),
        introduces(",\"channel\":"@, "channel"@),
        introduces(",\"fps\":"@, "fps"@),
        introduces(",\"host\":"@, "host"@),
        introduces(",\"sharedDrive\":"@, "sharedDrive"@),
{
    reveal_strlit("end");
    reveal_strlit(",\"end\":");
    assert(",\"end\":"@ =~= seq![',', '"'] + "end"@ + seq!['"', ':']);
    reveal_strlit("filename");
    reveal_strlit(",\"filename\":");
    assert(",\"filename\":"@ =~= seq![',', '"'] + "filename"@ + seq!['"', ':']);
    reveal_strlit("lens");
    reveal_strlit(",\"lens\":");
    assert(",\"lens\":"@ =~= seq![',', '"'] + "lens"@ + seq!['"', ':']);
    reveal_strlit("destination");
    reveal_strlit(",\"destination\":");
    assert(",\"destination\":"@ =~= seq![',', '"'] + "destination"@ + seq!['"', ':']);
    reveal_strlit("cameraId");
    reveal_strlit(",\"cameraId\":");
    assert(",\"cameraId\":"@ =~= seq![',', '"'] + "cameraId"@ + seq!['"', ':']);
    reveal_strlit("type");
    reveal_strlit(",\"type\":");
    assert(",\"type\":"@ =~= seq![',', '"'] + "type"@ + seq!['"', ':']);
    reveal_strlit("channel");
    reveal_strlit(",\"channel\":");
    assert(",\"channel\":"@ =~= seq![',', '"'] + "channel"@ + seq!['"', ':']);
    reveal_strlit("fps");
    reveal_strlit(",\"fps\":");
    assert(",\"fps\":"@ =~= seq![',', '"'] + "fps"@ + seq!['"', ':']);
    reveal_strlit("host");
    reveal_strlit(",\"host\":");
    assert(",\"host\":"@ =~= seq![',', '"'] + "host"@ + seq!['"', ':']);
    reveal_strlit("sharedDrive");
    reveal_strlit(",\"sharedDrive\":");
    assert(",\"sharedDrive\":"@ =~= seq![',', '"'] + "sharedDrive"@ + seq!['"', ':']);
}

proof fn lemma_more_members(
    members: Seq<(Seq<char>, Seq<char>)>,
    name: Seq<char>,
    value: Seq<char>,
    text: Seq<char>,
    piece: Seq<char>,
)
    requires
        members.len() > 0,
        seq!['{'] + members_text(members) == text,
        introduces(piece, name),
    ensures
        seq!['{'] + members_text(members.push((name, value))) == text + piece + value,
{
    a_plain_text_stands_in_json_as_it_is(name);
    assert(members.push((name, value)).drop_last() =~= members);
    assert(seq!['{'] + members_text(members.push((name, value))) =~= text + piece + value);
}

proof fn lemma_first_member(value: Seq<char>)
    ensures
        seq!['{'] + members_text(seq![("start"@, value)]) == "{\"start\":"@ + value,
{
    reveal_strlit("start");
    reveal_strlit("{\"start\":");
    a_plain_text_stands_in_json_as_it_is("start"@);
    assert(seq!['{'] + members_text(seq![("start"@, value)]) =~= "{\"start\":"@ + value);
}

/// The text of the members of a request, value by value.
spec fn request_text(
    start: Seq<char>,
    end: Seq<char>,
    filename: Seq<char>,
    lens: Seq<char>,
    destination: Seq<char>,
    camera_id: Seq<char>,
    archive_type: Seq<char>,
    channel: Seq<char>,
) -> Seq<char> {
    "{\"start\":"@ + start + ",\"end\":"@ + end + ",\"filename\":"@ + filename + ",\"lens\":"@ + lens
        + ",\"destination\":"@ + destination + ",\"cameraId\":"@ + camera_id + ",\"type\":"@
        + archive_type + ",\"channel\":"@ + channel
}

proof fn lemma_request_text(
    start: Seq<char>,
    end: Seq<char>,
    filename: Seq<char>,
    lens: Seq<char>,
    destination: Seq<char>,
    camera_id: Seq<char>,
    archive_type: Seq<char>,
    channel: Seq<char>,
)
    ensures
        seq!['{'] + members_text(
            seq![
                ("start"@, start),
                ("end"@, end),
                ("filename"@, filename),
                ("lens"@, lens),
                ("destination"@, destination),
                ("cameraId"@, camera_id),
                ("type"@, archive_type),
                ("channel"@, channel),
            ],
        ) == request_text(
            start,
            end,
            filename,
            lens,
            destination,
            camera_id,
            archive_type,
            channel,
        ),
{
    lemma_pieces();
    lemma_first_member(start);
    let m0 = seq![("start"@, start)];
    let t0 = "{\"start\":"@ + start;
    lemma_more_members(m0, "end"@, end, t0, ",\"end\":"@);
    let m1 = m0.push(("end"@, end));
    let t1 = t0 + ",\"end\":"@ + end;
    lemma_more_members(m1, "filename"@, filename, t1, ",\"filename\":"@);
    let m2 = m1.push(("filename"@, filename));
    let t2 = t1 + ",\"filename\":"@ + filename;
    lemma_more_members(m2, "lens"@, lens, t2, ",\"lens\":"@);
    let m3 = m2.push(("lens"@, lens));
    let t3 = t2 + ",\"lens\":"@ + lens;
    lemma_more_members(m3, "destination"@, destination, t3, ",\"destination\":"@);
    let m4 = m3.push(("destination"@, destination));
    let t4 = t3 + ",\"destination\":"@ + destination;
    lemma_more_members(m4, "cameraId"@, camera_id, t4, ",\"cameraId\":"@);
    let m5 = m4.push(("cameraId"@, camera_id));
    let t5 = t4 + ",\"cameraId\":"@ + camera_id;
    lemma_more_members(m5, "type"@, archive_type, t5, ",\"type\":"@);
    let m6 = m5.push(("type"@, archive_type));
    let t6 = t5 + ",\"type\":"@ + archive_type;
    lemma_more_members(m6, "channel"@, channel, t6, ",\"channel\":"@);
    let m7 = m6.push(("channel"@, channel));
    let t7 = t6 + ",\"channel\":"@ + channel;
    assert(seq![
        ("start"@, start),
        ("end"@, end),
        ("filename"@, filename),
        ("lens"@, lens),
        ("destination"@, destination),
        ("cameraId"@, camera_id),
        ("type"@, archive_type),
        ("channel"@, channel),
    ] =~= m7);
}

/// The JSON object of an archive request says what the request says: each field under the name that
/// the console gives it, the numbers as numerals and the texts as strings, and a frame rate only
/// where one is set.
pub proof fn the_json_of_a_request_says_what_the_request_says(
    request: &ArchiveVideoRequest,
    result: String,
)
    requires
        call_ensures(ArchiveVideoRequest::to_json, (request,), result),
    ensures
        result@ == "{\"start\":"@ + decimal(request.start as int) + ",\"end\":"@ + decimal(
            request.end as int,
        ) + ",\"filename\":"@ + json_string(request.filename@) + ",\"lens\":"@ + decimal(
            request.lens as int,
        ) + ",\"destination\":"@ + json_string(request.destination@) + ",\"cameraId\":"@
            + json_string(request.camera_id@) + ",\"type\":"@ + json_string(request.archive_type@)
            + ",\"channel\":"@ + decimal(request.channel as int) + (match request.fps {
            Some(fps) => ",\"fps\":"@ + decimal(fps as int),
            None => seq![],
        }) + ",\"host\":"@ + json_string(request.host@) + ",\"sharedDrive\":"@ + json_string(
            request.shared_drive@,
        ) + seq!['}'],
{
    let m7 = seq![
        ("start"@, decimal(request.start as int)),
        ("end"@, decimal(request.end as int)),
        ("filename"@, json_string(request.filename@)),
        ("lens"@, decimal(request.lens as int)),
        ("destination"@, json_string(request.destination@)),
        ("cameraId"@, json_string(request.camera_id@)),
        ("type"@, json_string(request.archive_type@)),
        ("channel"@, decimal(request.channel as int)),
    ];
    let t7 = request_text(
        decimal(request.start as int),
        decimal(request.end as int),
        json_string(request.filename@),
        decimal(request.lens as int),
        json_string(request.destination@),
        json_string(request.camera_id@),
        json_string(request.archive_type@),
        decimal(request.channel as int),
    );
    lemma_request_text(
        decimal(request.start as int),
        decimal(request.end as int),
        json_string(request.filename@),
        decimal(request.lens as int),
        json_string(request.destination@),
        json_string(request.camera_id@),
        json_string(request.archive_type@),
        decimal(request.channel as int),
    );
    let fps = match request.fps {
        Some(fps) => Some(decimal(fps as int)),
        None => None,
    };
    lemma_request_end(m7, t7, fps, json_string(request.host@), json_string(request.shared_drive@));
    assert(request.json_members() =~= m7 + (match fps {
        Some(value) => seq![("fps"@, value)],
        None => seq![],
    }) + seq![
        ("host"@, json_string(request.host@)),
        ("sharedDrive"@, json_string(request.shared_drive@)),
    ]);
}

proof fn lemma_request_end(
    m7: Seq<(Seq<char>, Seq<char>)>,
    t7: Seq<char>,
    fps: Option<Seq<char>>,
    host: Seq<char>,
    shared_drive: Seq<char>,
)
    requires
        m7.len() > 0,
        seq!['{'] + members_text(m7) == t7,
    ensures
        object_text(
            m7 + (match fps {
                Some(value) => seq![("fps"@, value)],
                None => seq![],
            }) + seq![("host"@, host), ("sharedDrive"@, shared_drive)],
        ) == t7 + (match fps {
            Some(value) => ",\"fps\":"@ + value,
            None => seq![],
        }) + ",\"host\":"@ + host + ",\"sharedDrive\":"@ + shared_drive + seq!['}'],
{
    lemma_pieces();
    let m8 = match fps {
        Some(value) => m7.push(("fps"@, value)),
        None => m7,
    };
    let t8 = t7 + (match fps {
        Some(value) => ",\"fps\":"@ + value,
        None => seq![],
    });
    if let Some(value) = fps {
        lemma_more_members(m7, "fps"@, value, t7, ",\"fps\":"@);
        assert(t7 + ",\"fps\":"@ + value =~= t8);
    } else {
        assert(t8 =~= t7);
    }
    lemma_more_members(m8, "host"@, host, t8, ",\"host\":"@);
    let m9 = m8.push(("host"@, host));
    let t9 = t8 + ",\"host\":"@ + host;
    lemma_more_members(m9, "sharedDrive"@, shared_drive, t9, ",\"sharedDrive\":"@);
    assert(m9.push(("sharedDrive"@, shared_drive)) =~= m7 + (match fps {
        Some(value) => seq![("fps"@, value)],
        None => seq![],
    }) + seq![("host"@, host), ("sharedDrive"@, shared_drive)]);
}

/// What follows a value in the JSON of a request.
spec fn tail_0(request: &ArchiveVideoRequest) -> Seq<char> {
    ",\"end\":"@ + (decimal(request.end as int) + tail_1(request))
}

spec fn tail_1(request: &ArchiveVideoRequest) -> Seq<char> {
    ",\"filename\":"@ + (json_string(request.filename@) + tail_2(request))
}

spec fn tail_2(request: &ArchiveVideoRequest) -> Seq<char> {
    ",\"lens\":"@ + (decimal(request.lens as int) + tail_3(request))
}

spec fn tail_3(request: &ArchiveVideoRequest) -> Seq<char> {
    ",\"destination\":"@ + (json_string(request.destination@) + tail_4(request))
}

spec fn tail_4(request: &ArchiveVideoRequest) -> Seq<char> {
    ",\"cameraId\":"@ + (json_string(request.camera_id@) + tail_5(request))
}

spec fn tail_5(request: &ArchiveVideoRequest) -> Seq<char> {
    ",\"type\":"@ + (json_string(request.archive_type@) + tail_6(request))
}

spec fn tail_6(request: &ArchiveVideoRequest) -> Seq<char> {
    ",\"channel\":"@ + (decimal(request.channel as int) + tail_7(request))
}

spec fn tail_7(request: &ArchiveVideoRequest) -> Seq<char> {
    (match request.fps {
        Some(fps) => ",\"fps\":"@ + decimal(fps as int),
        None => seq![],
    }) + tail_8(request)
}

spec fn tail_8(request: &ArchiveVideoRequest) -> Seq<char> {
    ",\"host\":"@ + (json_string(request.host@) + tail_9(request))
}

spec fn tail_9(request: &ArchiveVideoRequest) -> Seq<char> {
    ",\"sharedDrive\":"@ + (json_string(request.shared_drive@) + seq!['}'])
}

/// Whether two texts are equal.
spec fn equal_texts(a: Seq<char>, b: Seq<char>) -> bool {
    a == b
}

proof fn lemma_request_tails(request: &ArchiveVideoRequest, result: String)
    requires
        call_ensures(ArchiveVideoRequest::to_json, (request,), result),
    ensures
        equal_texts(
            result@,
            "{\"start\":"@ + (decimal(request.start as int) + tail_0(request)),
        ),
{
    the_json_of_a_request_says_what_the_request_says(request, result);
    let t0 = "{\"start\":"@ + decimal(request.start as int);
    let t1 = t0 + ",\"end\":"@ + decimal(request.end as int);
    let t2 = t1 + ",\"filename\":"@ + json_string(request.filename@);
    let t3 = t2 + ",\"lens\":"@ + decimal(request.lens as int);
    let t4 = t3 + ",\"destination\":"@ + json_string(request.destination@);
    let t5 = t4 + ",\"cameraId\":"@ + json_string(request.camera_id@);
    let t6 = t5 + ",\"type\":"@ + json_string(request.archive_type@);
    let t7 = t6 + ",\"channel\":"@ + decimal(request.channel as int);
    let piece = match request.fps {
        Some(fps) => ",\"fps\":"@ + decimal(fps as int),
        None => seq![],
    };
    let t8 = t7 + piece;
    let t9 = t8 + ",\"host\":"@ + json_string(request.host@);
    lemma_shift(t9, ",\"sharedDrive\":"@, json_string(request.shared_drive@), seq!['}']);
    lemma_shift(t8, ",\"host\":"@, json_string(request.host@), tail_9(request));
    lemma_group(t7, piece, tail_8(request));
    lemma_shift(t6, ",\"channel\":"@, decimal(request.channel as int), tail_7(request));
    lemma_shift(t5, ",\"type\":"@, json_string(request.archive_type@), tail_6(request));
    lemma_shift(t4, ",\"cameraId\":"@, json_string(request.camera_id@), tail_5(request));
    lemma_shift(t3, ",\"destination\":"@, json_string(request.destination@), tail_4(request));
    lemma_shift(t2, ",\"lens\":"@, decimal(request.lens as int), tail_3(request));
    lemma_shift(t1, ",\"filename\":"@, json_string(request.filename@), tail_2(request));
    lemma_shift(t0, ",\"end\":"@, decimal(request.end as int), tail_1(request));
    lemma_group("{\"start\":"@, decimal(request.start as int), tail_0(request));
}

proof fn lemma_tail_starts(request: &ArchiveVideoRequest)
    ensures
        tail_0(request).len() > 2 && tail_0(request)[0] == ',',
        tail_1(request).len() > 2 && tail_1(request)[0] == ',',
        tail_2(request).len() > 2 && tail_2(request)[0] == ',',
        tail_3(request).len() > 2 && tail_3(request)[0] == ',',
        tail_4(request).len() > 2 && tail_4(request)[0] == ',',
        tail_5(request).len() > 2 && tail_5(request)[0] == ',',
        tail_6(request).len() > 2 && tail_6(request)[0] == ',',
        tail_7(request).len() > 2 && tail_7(request)[0] == ',',
        tail_8(request).len() > 2 && tail_8(request)[0] == ',',
        tail_9(request).len() > 2 && tail_9(request)[0] == ',',
        tail_8(request)[2] == 'h',
        request.fps is Some ==> tail_7(request)[2] == 'f',
{
    lemma_pieces();
    reveal_strlit("host");
    reveal_strlit("fps");
    let end = tail_8(request);
    assert(end[0] == ",\"host\":"@[0] && end[2] == ",\"host\":"@[2]);
    if request.fps is Some {
        assert(tail_7(request)[0] == ",\"fps\":"@[0]);
        assert(tail_7(request)[2] == ",\"fps\":"@[2]);
    } else {
        assert(tail_7(request) =~= end);
    }
}

/// Requests that say different things are sent as different texts: the text of a request fixes every
/// field of it.
pub proof fn the_json_of_a_request_reads_back(
    request: &ArchiveVideoRequest,
    other: &ArchiveVideoRequest,
    result: String,
    other_result: String,
)
    requires
        call_ensures(ArchiveVideoRequest::to_json, (request,), result),
        call_ensures(ArchiveVideoRequest::to_json, (other,), other_result),
        result@ == other_result@,
    ensures
        request.start == other.start,
        request.end == other.end,
        request.filename@ == other.filename@,
        request.lens == other.lens,
        request.destination@ == other.destination@,
        request.camera_id@ == other.camera_id@,
        request.archive_type@ == other.archive_type@,
        request.channel == other.channel,
        request.fps == other.fps,
        request.host@ == other.host@,
        request.shared_drive@ == other.shared_drive@,
{
    lemma_request_tails(request, result);
    lemma_request_tails(other, other_result);
    lemma_tail_starts(request);
    lemma_tail_starts(other);
    lemma_cut_prefix(
        "{\"start\":"@,
        decimal(request.start as int) + tail_0(request),
        decimal(other.start as int) + tail_0(other),
    );
    a_number_in_a_text_reads_back(
        request.start as int,
        tail_0(request),
        other.start as int,
        tail_0(other),
    );
    lemma_cut_prefix(
        ",\"end\":"@,
        decimal(request.end as int) + tail_1(request),
        decimal(other.end as int) + tail_1(other),
    );
    a_number_in_a_text_reads_back(
        request.end as int,
        tail_1(request),
        other.end as int,
        tail_1(other),
    );
    lemma_cut_prefix(
        ",\"filename\":"@,
        json_string(request.filename@) + tail_2(request),
        json_string(other.filename@) + tail_2(other),
    );
    a_json_string_reads_back(request.filename@, tail_2(request), other.filename@, tail_2(other));
    lemma_cut_prefix(
        ",\"lens\":"@,
        decimal(request.lens as int) + tail_3(request),
        decimal(other.lens as int) + tail_3(other),
    );
    a_number_in_a_text_reads_back(
        request.lens as int,
        tail_3(request),
        other.lens as int,
        tail_3(other),
    );
    lemma_cut_prefix(
        ",\"destination\":"@,
        json_string(request.destination@) + tail_4(request),
        json_string(other.destination@) + tail_4(other),
    );
    a_json_string_reads_back(
        request.destination@,
        tail_4(request),
        other.destination@,
        tail_4(other),
    );
    lemma_cut_prefix(
        ",\"cameraId\":"@,
        json_string(request.camera_id@) + tail_5(request),
        json_string(other.camera_id@) + tail_5(other),
    );
    a_json_string_reads_back(request.camera_id@, tail_5(request), other.camera_id@, tail_5(other));
    lemma_cut_prefix(
        ",\"type\":"@,
        json_string(request.archive_type@) + tail_6(request),
        json_string(other.archive_type@) + tail_6(other),
    );
    a_json_string_reads_back(
        request.archive_type@,
        tail_6(request),
        other.archive_type@,
        tail_6(other),
    );
    lemma_cut_prefix(
        ",\"channel\":"@,
        decimal(request.channel as int) + tail_7(request),
        decimal(other.channel as int) + tail_7(other),
    );
    a_number_in_a_text_reads_back(
        request.channel as int,
        tail_7(request),
        other.channel as int,
        tail_7(other),
    );
    if request.fps is Some && other.fps is Some {
        let piece = ",\"fps\":"@;
        assert(tail_7(request) =~= piece + (decimal(request.fps->0 as int) + tail_8(request)));
        assert(tail_7(other) =~= piece + (decimal(other.fps->0 as int) + tail_8(other)));
        lemma_cut_prefix(
            piece,
            decimal(request.fps->0 as int) + tail_8(request),
            decimal(other.fps->0 as int) + tail_8(other),
        );
        a_number_in_a_text_reads_back(
            request.fps->0 as int,
            tail_8(request),
            other.fps->0 as int,
            tail_8(other),
        );
    } else {
        if request.fps is None {
            assert(tail_7(request) =~= tail_8(request));
        }
        if other.fps is None {
            assert(tail_7(other) =~= tail_8(other));
        }
    }
    lemma_cut_prefix(
        ",\"host\":"@,
        json_string(request.host@) + tail_9(request),
        json_string(other.host@) + tail_9(other),
    );
    a_json_string_reads_back(request.host@, tail_9(request), other.host@, tail_9(other));
    lemma_cut_prefix(
        ",\"sharedDrive\":"@,
        json_string(request.shared_drive@) + seq!['}'],
        json_string(other.shared_drive@) + seq!['}'],
    );
    a_json_string_reads_back(request.shared_drive@, seq!['}'], other.shared_drive@, seq!['}']);
}

/// What is no JSON document is not shown, what is no object is shown as it is, and what is an object
/// is shown without its member `data`: it makes no difference whether, where and with what value the
/// object has one, and without one it is shown whole.
pub proof fn a_redacted_object_is_shown_as_if_without_data(
    document: String,
    other_document: String,
    before: Seq<(Seq<char>, Seq<char>)>,
    after: Seq<(Seq<char>, Seq<char>)>,
    data: Seq<char>,
    with_data: Vec<(String, String)>,
    without_data: Vec<(String, String)>,
    shown_with: String,
    shown_without: String,
    shown_document: String,
    shown_nothing: String,
)
    requires
        member_views(with_data@) == before.push(("data"@, data)) + after,
        member_views(without_data@) == before + after,
        call_ensures(redact_parsed, (Some((document, Some(with_data))),), shown_with),
        call_ensures(redact_parsed, (Some((other_document, Some(without_data))),), shown_without),
        call_ensures(redact_parsed, (Some((document, None)),), shown_document),
        call_ensures(redact_parsed, (None,), shown_nothing),
    ensures
        shown_with@ == shown_without@,
        (forall|i: int|
            0 <= i < without_data@.len() ==> (#[trigger] without_data@[i]).0@ != "data"@)
            ==> shown_without@ == object_text(before + after),
        shown_document@ == document@,
        shown_nothing@ == "<redacted auth response>"@,
{
    lemma_without_inserted(before, after, "data"@, data);
    if forall|i: int|
        0 <= i < without_data@.len() ==> (#[trigger] without_data@[i]).0@ != "data"@ {
        let members = before + after;
        assert forall|i: int| 0 <= i < members.len() implies (#[trigger] members[i]).0 != "data"@ by {
            assert(members[i] == member_views(without_data@)[i]);
            assert(without_data@[i].0@ != "data"@);
        }
        lemma_without_none(members, "data"@);
    }
}

proof fn lemma_without_push(
    members: Seq<(Seq<char>, Seq<char>)>,
    member: (Seq<char>, Seq<char>),
    name: Seq<char>,
)
    ensures
        without(members.push(member), name) == (if member.0 == name {
            without(members, name)
        } else {
            without(members, name).push(member)
        }),
{
    reveal(Seq::filter);
    assert(members.push(member).drop_last() =~= members);
}

proof fn lemma_without_inserted(
    before: Seq<(Seq<char>, Seq<char>)>,
    after: Seq<(Seq<char>, Seq<char>)>,
    name: Seq<char>,
    value: Seq<char>,
)
    ensures
        without(before.push((name, value)) + after, name) == without(before + after, name),
    decreases after.len(),
{
    let longer = before.push((name, value));
    if after.len() == 0 {
        assert(longer + after =~= longer);
        assert(before + after =~= before);
        lemma_without_push(before, (name, value), name);
    } else {
        let rest = after.drop_last();
        lemma_without_inserted(before, rest, name, value);
        lemma_without_push(longer + rest, after.last(), name);
        lemma_without_push(before + rest, after.last(), name);
        assert(longer + after =~= (longer + rest).push(after.last()));
        assert(before + after =~= (before + rest).push(after.last()));
    }
}

proof fn lemma_without_none(members: Seq<(Seq<char>, Seq<char>)>, name: Seq<char>)
    requires
        forall|i: int| 0 <= i < members.len() ==> (#[trigger] members[i]).0 != name,
    ensures
        without(members, name) == members,
    decreases members.len(),
{
    if members.len() == 0 {
        reveal(Seq::filter);
        assert(without(members, name) =~= members);
    } else {
        let rest = members.drop_last();
        assert forall|i: int| 0 <= i < rest.len() implies (#[trigger] rest[i]).0 != name by {
            assert(rest[i] == members[i]);
        }
        lemma_without_none(rest, name);
        lemma_without_push(rest, members.last(), name);
        assert(members[members.len() - 1] == members.last());
        assert(rest.push(members.last()) =~= members);
    }
}

/// An object is written as its members are: nothing is left out or added.
pub proof fn an_object_is_written_with_all_its_members(
    members: &Vec<(String, String)>,
    result: String,
    name: &str,
    kept: Vec<(String, String)>,
    i: int,
)
    requires
        call_ensures(write_object, (members,), result),
        call_ensures(remove_member, (members, name), kept),
        0 <= i < members@.len(),
    ensures
        result@ == object_text(
            Seq::new(members@.len(), |k: int| (members@[k].0@, members@[k].1@)),
        ),
        member_views(kept@).contains((members@[i].0@, members@[i].1@)) <==> members@[i].0@ != name@,
{
    let views = Seq::new(members@.len(), |k: int| (members@[k].0@, members@[k].1@));
    assert(views =~= member_views(members@));
    let keep = |m: (Seq<char>, Seq<char>)| m.0 != name@;
    let member = (members@[i].0@, members@[i].1@);
    assert(views[i] == member);
    if member.0 != name@ {
        views.lemma_filter_contains(keep, i);
    } else if views.filter(keep).contains(member) {
        let k = choose|k: int| 0 <= k < views.filter(keep).len() && views.filter(keep)[k] == member;
        views.lemma_filter_pred(keep, k);
    }
}

/// A query string holds its pairs in their order, with an ampersand between them, and each as a name
/// and a value with an equals sign between them.
pub proof fn a_query_holds_its_pairs(
    pairs: Seq<(Seq<char>, Seq<char>)>,
    pair: (Seq<char>, Seq<char>),
)
    ensures
        query_text(seq![]) == Seq::<char>::empty(),
        query_text(seq![pair]) == query_bytes(encode_utf8(pair.0)) + seq!['='] + query_bytes(
            encode_utf8(pair.1),
        ),
        pairs.len() > 0 ==> query_text(pairs.push(pair)) == query_text(pairs) + seq!['&']
            + query_bytes(encode_utf8(pair.0)) + seq!['='] + query_bytes(encode_utf8(pair.1)),
{
    if pairs.len() > 0 {
        assert(pairs.push(pair).drop_last() =~= pairs);
        assert(query_text(pairs.push(pair)) =~= query_text(pairs) + seq!['&'] + query_bytes(
            encode_utf8(pair.0),
        ) + seq!['='] + query_bytes(encode_utf8(pair.1)));
    }
}

/// The value of an upper case hexadecimal digit.
pub open spec fn hex_value(c: char) -> int {
    if '0' <= c <= '9' {
        c as int - '0' as int
    } else {
        c as int - 'A' as int + 10
    }
}

/// Letters, digits and `*-._` stand in a query string as they are, a space stands as a plus sign, and
/// any other byte stands as a percent sign and its value in two hexadecimal digits.
pub proof fn a_byte_stands_in_a_query_as_itself_or_escaped(b: u8)
    ensures
        ({
            let plain = 'a' as int <= b <= 'z' as int || 'A' as int <= b <= 'Z' as int || '0' as int
                <= b <= '9' as int || b == '*' as int || b == '-' as int || b == '.' as int || b
                == '_' as int;
            let text = query_byte(b);
            &&& plain ==> text.len() == 1 && text[0] as int == b
            &&& b == ' ' as int ==> text == seq!['+']
            &&& !plain && b != ' ' as int ==> {
                &&& text.len() == 3
                &&& text[0] == '%'
                &&& '0' <= text[1] <= '9' || 'A' <= text[1] <= 'F'
                &&& '0' <= text[2] <= '9' || 'A' <= text[2] <= 'F'
                &&& hex_value(text[1]) * 16 + hex_value(text[2]) == b
            }
        }),
{
}

proof fn lemma_query_byte(a: u8, b: u8, x: Seq<char>, y: Seq<char>)
    requires
        query_byte(a) + x == query_byte(b) + y,
    ensures
        a == b,
{
    let s = query_byte(a) + x;
    let t = query_byte(b) + y;
    a_byte_stands_in_a_query_as_itself_or_escaped(a);
    a_byte_stands_in_a_query_as_itself_or_escaped(b);
    assert(s[0] == query_byte(a)[0] && t[0] == query_byte(b)[0]);
    if query_byte(a).len() == 3 && query_byte(b).len() == 3 {
        assert(s[1] == query_byte(a)[1] && t[1] == query_byte(b)[1]);
        assert(s[2] == query_byte(a)[2] && t[2] == query_byte(b)[2]);
    }
}

proof fn lemma_query_is_coded(s: Seq<u8>)
    ensures
        query_bytes(s) == coded(|b: u8| query_byte(b), s),
    decreases s.len(),
{
    let code = |b: u8| query_byte(b);
    if s.len() > 0 {
        lemma_query_is_coded(s.drop_last());
        lemma_coded_push(code, s.drop_last(), s.last());
        assert(s.drop_last().push(s.last()) =~= s);
    }
}

/// A value in a query string, and what follows it, can be read back.
pub proof fn a_query_value_reads_back(
    s: Seq<char>,
    x: Seq<char>,
    t: Seq<char>,
    y: Seq<char>,
)
    requires
        query_bytes(encode_utf8(s)) + (seq!['&'] + x) == query_bytes(encode_utf8(t)) + (seq!['&']
            + y),
    ensures
        s == t,
        x == y,
{
    let code = |b: u8| query_byte(b);
    lemma_query_is_coded(encode_utf8(s));
    lemma_query_is_coded(encode_utf8(t));
    assert(readable(code, '&')) by {
        assert forall|b: u8| (#[trigger] code(b)).len() > 0 && code(b)[0] != '&' by {
            a_byte_stands_in_a_query_as_itself_or_escaped(b);
        }
        assert forall|a: u8, b: u8, p: Seq<char>, q: Seq<char>|
            #![trigger code(a) + p, code(b) + q]
            code(a) + p == code(b) + q implies a == b by {
            lemma_query_byte(a, b, p, q);
        }
    }
    lemma_cut_code(code, '&', encode_utf8(s), seq!['&'] + x, encode_utf8(t), seq!['&'] + y);
    encode_utf8_decode_utf8(s);
    encode_utf8_decode_utf8(t);
    assert((seq!['&'] + x).drop_first() =~= x);
    assert((seq!['&'] + y).drop_first() =~= y);
}

} // verus!
