//! JSON, as the engine reads and writes it: the request that starts an import,
//! and the texts in the header of what comes back.

use crate::text::{decimal, hex_digit, optional_text, texts};
use vstd::prelude::*;
use vstd::string::*;
use vstd::utf8::*;

verus! {

/// How one character stands inside a JSON string: the quote, the backslash and
/// the control characters are escaped, the others stand for themselves.
pub open spec fn escape(c: char) -> Seq<char> {
    if c == '"' || c == '\\' {
        seq!['\\', c]
    } else if c as u32 == 8 {
        seq!['\\', 'b']
    } else if c as u32 == 9 {
        seq!['\\', 't']
    } else if c as u32 == 10 {
        seq!['\\', 'n']
    } else if c as u32 == 12 {
        seq!['\\', 'f']
    } else if c as u32 == 13 {
        seq!['\\', 'r']
    } else if (c as u32) < 32 {
        seq!['\\', 'u', '0', '0', hex_digit(c as nat / 16), hex_digit(c as nat % 16)]
    } else {
        seq![c]
    }
}

/// How a text stands between the quotes of a JSON string.
pub open spec fn escaped(text: Seq<char>) -> Seq<char>
    decreases text.len(),
{
    if text.len() == 0 {
        Seq::empty()
    } else {
        escape(text[0]) + escaped(text.skip(1))
    }
}

/// A text as a JSON string.
pub open spec fn quoted(text: Seq<char>) -> Seq<char> {
    seq!['"'] + escaped(text) + seq!['"']
}

/// Pieces of text with a comma between each two.
pub open spec fn comma_separated(pieces: Seq<Seq<char>>) -> Seq<char>
    decreases pieces.len(),
{
    if pieces.len() == 0 {
        Seq::empty()
    } else if pieces.len() == 1 {
        pieces[0]
    } else {
        pieces[0] + seq![','] + comma_separated(pieces.skip(1))
    }
}

/// A list of texts as a JSON array of strings.
pub open spec fn list_json(list: Seq<Seq<char>>) -> Seq<char> {
    seq!['['] + comma_separated(list.map_values(|t: Seq<char>| quoted(t))) + seq![']']
}

/// A truth value in JSON.
pub open spec fn flag_json(flag: bool) -> Seq<char> {
    if flag {
        "true"@
    } else {
        "false"@
    }
}

/// A member of a JSON object: its name, and its value already in JSON.
pub open spec fn member_json(name: Seq<char>, value: Seq<char>) -> Seq<char> {
    quoted(name) + seq![':'] + value
}

/// A JSON object of the given members, in the given order, without spaces.
pub open spec fn object_json(members: Seq<Seq<char>>) -> Seq<char> {
    seq!['{'] + comma_separated(members) + seq!['}']
}

/// The order of texts by their characters' scalar values, strictly: at the first
/// place where they differ, `a` ends or has the smaller character.
pub open spec fn before(a: Seq<char>, b: Seq<char>) -> bool
    decreases a.len(),
{
    b.len() > 0 && (a.len() == 0 || (a[0] as u32) < (b[0] as u32) || (a[0] == b[0] && before(
        a.skip(1),
        b.skip(1),
    )))
}

/// `serde_json::Map::insert`, `serde_json::Value::from` and the `Display` of
/// `serde_json::Value`: an object with four members of four kinds, written
/// compactly. The object keeps its members sorted by name, so for names that are
/// given in ascending order they come out as they went in.
#[verifier::external_body]
fn object_text(
    flag: (&str, bool),
    text: (&str, &str),
    list: (&str, &Vec<String>),
    count: (&str, u64),
) -> (r: String)
    requires
        before(flag.0@, text.0@),
        before(text.0@, list.0@),
        before(list.0@, count.0@),
    ensures
        r@ == object_json(
            seq![
                member_json(flag.0@, flag_json(flag.1)),
                member_json(text.0@, quoted(text.1@)),
                member_json(list.0@, list_json(texts(list.1@))),
                member_json(count.0@, decimal(count.1 as nat)),
            ],
        ),
{
    let mut object = serde_json::Map::new();
    object.insert(flag.0.to_string(), serde_json::Value::from(flag.1));
    object.insert(text.0.to_string(), serde_json::Value::from(text.1));
    object.insert(list.0.to_string(), serde_json::Value::from(list.1.clone()));
    object.insert(count.0.to_string(), serde_json::Value::from(count.1));
    serde_json::Value::Object(object).to_string()
}

/// The text of the member of a JSON document that has the given name: none where
/// the document is not JSON or not an object, or has no such member, or has one
/// that is not a string.
pub uninterp spec fn text_member_of(document: Seq<char>, name: Seq<char>) -> Option<Seq<char>>;

/// `serde_json::from_str`, `serde_json::Value::get` and
/// `serde_json::Value::as_str`: what they find of a member of a document. Of the
/// JSON grammar nothing is said but that the empty object has no members.
#[verifier::external_body]
fn text_member(document: &str, name: &str) -> (r: Option<String>)
    ensures
        optional_text(r) == text_member_of(document@, name@),
        document@ == "{}"@ ==> r is None,
{
    let document: serde_json::Value = serde_json::from_str(document).ok()?;
    document.get(name)?.as_str().map(|text| text.to_string())
}

/// The request that has the engine import the given files: every row, and the
/// result in plain JSON (the password is of no use to the engine then).
pub open spec fn request(paths: Seq<Seq<char>>) -> Seq<char> {
    object_json(
        seq![
            member_json("encrypt"@, flag_json(false)),
            member_json("password"@, quoted(""@)),
            member_json("paths"@, list_json(paths)),
            member_json("row_limit"@, decimal(0)),
        ],
    )
}

/// Writes the request that has the engine import the given files, in UTF-8.
pub fn request_bytes(paths: &Vec<String>) -> (r: Vec<u8>)
    ensures
        r@ == encode_utf8(request(texts(paths@))),
{
    proof {
        reveal_strlit("encrypt");
        reveal_strlit("password");
        reveal_strlit("paths");
        reveal_strlit("row_limit");
        reveal_with_fuel(before, 4);
    }
    let text = object_text(("encrypt", false), ("password", ""), ("paths", paths), ("row_limit", 0));
    text.as_str().as_bytes_vec()
}

/// The password and the format that a header names.
pub struct HeaderFields {
    pub password: String,
    pub format: String,
}

/// Fills in what a header left out: no password, and a sealed bundle.
pub fn with_defaults(password: Option<String>, format: Option<String>) -> (r: HeaderFields)
    ensures
        r.password@ == (match password {
            Some(p) => p@,
            None => ""@,
        }),
        r.format@ == (match format {
            Some(f) => f@,
            None => "bundle"@,
        }),
{
    let password = match password {
        Some(p) => p,
        None => "".to_owned(),
    };
    let format = match format {
        Some(f) => f,
        None => "bundle".to_owned(),
    };
    HeaderFields { password, format }
}

/// The JSON document in a header: what its bytes encode, or the empty object
/// where they are not UTF-8.
pub open spec fn header_document(header: Seq<u8>) -> Seq<char> {
    if valid_utf8(header) {
        decode_utf8(header)
    } else {
        "{}"@
    }
}

/// The password in a header.
pub open spec fn header_password(header: Seq<u8>) -> Seq<char> {
    match text_member_of(header_document(header), "password"@) {
        Some(p) => p,
        None => ""@,
    }
}

/// The format in a header.
pub open spec fn header_format(header: Seq<u8>) -> Seq<char> {
    match text_member_of(header_document(header), "format"@) {
        Some(f) => f,
        None => "bundle"@,
    }
}

/// Reads the password and the format out of a header.
pub fn read_header(header: &[u8]) -> (r: HeaderFields)
    ensures
        r.password@ == header_password(header@),
        r.format@ == header_format(header@),
        !valid_utf8(header@) ==> r.password@ == ""@ && r.format@ == "bundle"@,
        valid_utf8(header@) ==> r.password@ == (match text_member_of(
            decode_utf8(header@),
            "password"@,
        ) {
            Some(p) => p,
            None => ""@,
        }),
        valid_utf8(header@) ==> r.format@ == (match text_member_of(
            decode_utf8(header@),
            "format"@,
        ) {
            Some(f) => f,
            None => "bundle"@,
        }),
{
    let document = match crate::text::utf8_text(header) {
        Some(text) => text,
        None => "{}",
    };
    let password = text_member(document, "password");
    let format = text_member(document, "format");
    with_defaults(password, format)
}

/// The request tells the engine exactly which files to import, and in which
/// order: two lists of paths that give the same request are the same list.
pub proof fn law_request_names_the_files(p: Seq<Seq<char>>, q: Seq<Seq<char>>)
    requires
        encode_utf8(request(p)) == encode_utf8(request(q)),
    ensures
        p == q,
{
    encode_utf8_decode_utf8(request(p));
    encode_utf8_decode_utf8(request(q));
    lemma_request_shape(p);
    lemma_request_shape(q);
    let head = request_head();
    let tail = request_tail();
    let x = strings(p) + seq![']'] + tail;
    let y = strings(q) + seq![']'] + tail;
    assert((head + x).skip(head.len() as int) =~= x);
    assert((head + y).skip(head.len() as int) =~= y);
    lemma_strings_end(p, q, tail, tail);
}

/// A list of texts as JSON strings, with commas.
spec fn strings(list: Seq<Seq<char>>) -> Seq<char> {
    comma_separated(list.map_values(|t: Seq<char>| quoted(t)))
}

/// What stands before the first path of a request.
spec fn request_head() -> Seq<char> {
    seq!['{'] + member_json("encrypt"@, flag_json(false)) + seq![','] + member_json(
        "password"@,
        quoted(""@),
    ) + seq![','] + quoted("paths"@) + seq![':', '[']
}

/// What follows the list of paths of a request.
spec fn request_tail() -> Seq<char> {
    seq![','] + member_json("row_limit"@, decimal(0)) + seq!['}']
}

proof fn lemma_request_shape(p: Seq<Seq<char>>)
    ensures
        request(p) == request_head() + (strings(p) + seq![']'] + request_tail()),
{
    let m0 = member_json("encrypt"@, flag_json(false));
    let m1 = member_json("password"@, quoted(""@));
    let m2 = member_json("paths"@, list_json(p));
    let m3 = member_json("row_limit"@, decimal(0));
    let all = seq![m0, m1, m2, m3];
    assert(all.skip(1) =~= seq![m1, m2, m3]);
    assert(seq![m1, m2, m3].skip(1) =~= seq![m2, m3]);
    assert(seq![m2, m3].skip(1) =~= seq![m3]);
    assert(comma_separated(seq![m3]) == m3);
    assert(comma_separated(seq![m2, m3]) == m2 + seq![','] + m3);
    assert(comma_separated(seq![m1, m2, m3]) == m1 + seq![','] + (m2 + seq![','] + m3));
    assert(comma_separated(all) == m0 + seq![','] + (m1 + seq![','] + (m2 + seq![','] + m3)));
    assert(request(p) =~= request_head() + (strings(p) + seq![']'] + request_tail()));
}

proof fn lemma_escape_prefix(a: char, b: char, x: Seq<char>, y: Seq<char>)
    requires
        escape(a) + x == escape(b) + y,
    ensures
        a == b,
        x == y,
{
    let u = escape(a) + x;
    let v = escape(b) + y;
    assert(u[0] == escape(a)[0] && v[0] == escape(b)[0]);
    if escape(a).len() >= 2 {
        assert(u[1] == escape(a)[1]);
    }
    if escape(b).len() >= 2 {
        assert(v[1] == escape(b)[1]);
    }
    if escape(a).len() == 6 {
        assert(u[4] == escape(a)[4] && u[5] == escape(a)[5]);
    }
    if escape(b).len() == 6 {
        assert(v[4] == escape(b)[4] && v[5] == escape(b)[5]);
    }
    assert(a == b);
    assert(u.skip(escape(a).len() as int) =~= x);
    assert(v.skip(escape(b).len() as int) =~= y);
}

proof fn lemma_escaped_end(s: Seq<char>, t: Seq<char>, x: Seq<char>, y: Seq<char>)
    requires
        escaped(s) + seq!['"'] + x == escaped(t) + seq!['"'] + y,
    ensures
        s == t,
        x == y,
    decreases s.len(),
{
    let u = escaped(s) + seq!['"'] + x;
    let v = escaped(t) + seq!['"'] + y;
    if s.len() > 0 {
        let rest = escaped(s.skip(1)) + seq!['"'] + x;
        assert(u =~= escape(s[0]) + rest);
        assert(u[0] == escape(s[0])[0]);
    }
    if t.len() > 0 {
        let rest = escaped(t.skip(1)) + seq!['"'] + y;
        assert(v =~= escape(t[0]) + rest);
        assert(v[0] == escape(t[0])[0]);
    }
    if s.len() == 0 || t.len() == 0 {
        if s.len() == 0 {
            assert(u[0] == '"');
        }
        if t.len() == 0 {
            assert(v[0] == '"');
        }
        assert(s =~= t);
        assert(u.skip(1) =~= x);
        assert(v.skip(1) =~= y);
    } else {
        let a = escaped(s.skip(1)) + seq!['"'] + x;
        let b = escaped(t.skip(1)) + seq!['"'] + y;
        lemma_escape_prefix(s[0], t[0], a, b);
        lemma_escaped_end(s.skip(1), t.skip(1), x, y);
        assert(s =~= seq![s[0]] + s.skip(1));
        assert(t =~= seq![t[0]] + t.skip(1));
    }
}

proof fn lemma_quoted_prefix(s: Seq<char>, t: Seq<char>, x: Seq<char>, y: Seq<char>)
    requires
        quoted(s) + x == quoted(t) + y,
    ensures
        s == t,
        x == y,
{
    let u = quoted(s) + x;
    let v = quoted(t) + y;
    assert(u.skip(1) =~= escaped(s) + seq!['"'] + x);
    assert(v.skip(1) =~= escaped(t) + seq!['"'] + y);
    lemma_escaped_end(s, t, x, y);
}

/// What follows the first of several strings: a comma and the others, or
/// nothing.
spec fn after_first(list: Seq<Seq<char>>) -> Seq<char> {
    if list.len() == 1 {
        Seq::empty()
    } else {
        seq![','] + strings(list.skip(1))
    }
}

proof fn lemma_strings_first(list: Seq<Seq<char>>)
    requires
        list.len() > 0,
    ensures
        strings(list) == quoted(list[0]) + after_first(list),
{
    let f = |t: Seq<char>| quoted(t);
    assert(list.map_values(f).skip(1) =~= list.skip(1).map_values(f));
    assert(strings(list) =~= quoted(list[0]) + after_first(list));
}

proof fn lemma_strings_end(p: Seq<Seq<char>>, q: Seq<Seq<char>>, x: Seq<char>, y: Seq<char>)
    requires
        strings(p) + seq![']'] + x == strings(q) + seq![']'] + y,
    ensures
        p == q,
        x == y,
    decreases p.len(),
{
    let u = strings(p) + seq![']'] + x;
    let v = strings(q) + seq![']'] + y;
    if p.len() == 0 {
        assert(u[0] == ']');
        assert(u.skip(1) =~= x);
    } else {
        lemma_strings_first(p);
        assert(u[0] == '"');
    }
    if q.len() == 0 {
        assert(v[0] == ']');
        assert(v.skip(1) =~= y);
    } else {
        lemma_strings_first(q);
        assert(v[0] == '"');
    }
    if p.len() == 0 {
        assert(p =~= q);
    } else {
        let a = after_first(p) + seq![']'] + x;
        let b = after_first(q) + seq![']'] + y;
        assert(u =~= quoted(p[0]) + a);
        assert(v =~= quoted(q[0]) + b);
        lemma_quoted_prefix(p[0], q[0], a, b);
        assert(p =~= seq![p[0]] + p.skip(1));
        assert(q =~= seq![q[0]] + q.skip(1));
        if p.len() == 1 {
            assert(a[0] == ']');
            assert(a.skip(1) =~= x);
            assert(b[0] == ']');
            assert(b.skip(1) =~= y);
            assert(p.skip(1) =~= q.skip(1));
        } else {
            assert(a[0] == ',');
            assert(b[0] == ',');
            assert(a.skip(1) =~= strings(p.skip(1)) + seq![']'] + x);
            assert(b.skip(1) =~= strings(q.skip(1)) + seq![']'] + y);
            lemma_strings_end(p.skip(1), q.skip(1), x, y);
        }
    }
}

/// The format of a header is the string that its document has under that name,
/// whatever else the document holds, and that of a sealed bundle where it has
/// none; and likewise its password, which is empty where it has none.
pub proof fn law_header_fields_are_the_members(head: Seq<u8>, text: Seq<char>)
    requires
        valid_utf8(head),
    ensures
        text_member_of(decode_utf8(head), "format"@) == Some(text) ==> header_format(head) == text,
        text_member_of(decode_utf8(head), "format"@) is None ==> header_format(head) == "bundle"@,
        text_member_of(decode_utf8(head), "password"@) == Some(text) ==> header_password(head)
            == text,
        text_member_of(decode_utf8(head), "password"@) is None ==> header_password(head) == ""@,
{
}

/// A header that is not UTF-8 is read as the empty object.
pub proof fn law_undecodable_header_is_an_empty_object(head: Seq<u8>)
    requires
        !valid_utf8(head),
    ensures
        header_format(head) == (match text_member_of("{}"@, "format"@) {
            Some(f) => f,
            None => "bundle"@,
        }),
        header_password(head) == (match text_member_of("{}"@, "password"@) {
            Some(p) => p,
            None => ""@,
        }),
{
}

/// A character stands for itself in a JSON string, but for the quote and the
/// backslash, which a backslash precedes, and the control characters, which have
/// a letter of their own or are given by their number.
pub proof fn law_special_characters_are_escaped(c: char)
    ensures
        c == '"' ==> escape(c) == seq!['\\', '"'],
        c == '\\' ==> escape(c) == seq!['\\', '\\'],
        c as u32 == 8 ==> escape(c) == seq!['\\', 'b'],
        c as u32 == 9 ==> escape(c) == seq!['\\', 't'],
        c as u32 == 10 ==> escape(c) == seq!['\\', 'n'],
        c as u32 == 12 ==> escape(c) == seq!['\\', 'f'],
        c as u32 == 13 ==> escape(c) == seq!['\\', 'r'],
        ((c as u32) < 8 || c as u32 == 11 || 14 <= c as u32 <= 31) ==> escape(c) == seq![
            '\\',
            'u',
            '0',
            '0',
            (48 + c as int / 16) as char,
            (if c as int % 16 < 10 {
                48 + c as int % 16
            } else {
                87 + c as int % 16
            }) as char,
        ],
        c as u32 >= 32 && c != '"' && c != '\\' ==> escape(c) == seq![c],
{
}

/// A text is escaped character by character: of a text with one more character,
/// the escaped text is that of the text before, and then that character's.
pub proof fn law_texts_are_escaped_character_by_character(text: Seq<char>, c: char)
    ensures
        escaped(Seq::empty()) == Seq::<char>::empty(),
        escaped(text.push(c)) == escaped(text) + escape(c),
        quoted(text) == seq!['"'] + escaped(text) + seq!['"'],
    decreases text.len(),
{
    let longer = text.push(c);
    assert(longer[0] == if text.len() == 0 {
        c
    } else {
        text[0]
    });
    if text.len() == 0 {
        assert(longer.skip(1) =~= Seq::empty());
        assert(escaped(longer.skip(1)) == Seq::<char>::empty());
        assert(escaped(longer) =~= escape(c));
        assert(escaped(text) + escape(c) =~= escape(c));
    } else {
        assert(longer.skip(1) =~= text.skip(1).push(c));
        law_texts_are_escaped_character_by_character(text.skip(1), c);
        assert(escaped(longer) =~= escape(text[0]) + (escaped(text.skip(1)) + escape(c)));
        assert(escaped(longer) =~= escaped(text) + escape(c));
    }
}

/// A request names exactly the given files: without files it has an empty list,
/// and of one more file the request is the same but that its list goes on with
/// that file's path, quoted, after a comma where it is not the first. All else is
/// fixed: every row is asked for, and the result in plain JSON.
pub proof fn law_request_names_each_file_once(paths: Seq<Seq<char>>, path: Seq<char>)
    ensures
        request(Seq::empty())
            == "{\"encrypt\":false,\"password\":\"\",\"paths\":["@ + "],\"row_limit\":0}"@,
        request(seq![path]) == "{\"encrypt\":false,\"password\":\"\",\"paths\":["@ + (seq!['"']
            + escaped(path) + seq!['"']) + "],\"row_limit\":0}"@,
        paths.len() > 0 ==> request(paths.push(path)) == request(paths).take(
            request(paths).len() - "],\"row_limit\":0}"@.len(),
        ) + seq![','] + (seq!['"'] + escaped(path) + seq!['"']) + "],\"row_limit\":0}"@,
{
    let head = "{\"encrypt\":false,\"password\":\"\",\"paths\":["@;
    let tail = "],\"row_limit\":0}"@;
    lemma_request_text(Seq::empty());
    lemma_request_text(seq![path]);
    lemma_request_text(paths);
    lemma_request_text(paths.push(path));
    lemma_strings_push(Seq::empty(), path);
    assert(Seq::<Seq<char>>::empty().push(path) =~= seq![path]);
    assert(strings(Seq::empty()) =~= Seq::empty());
    assert(request(Seq::empty()) =~= head + tail);
    assert(request(seq![path]) =~= head + quoted(path) + tail);
    if paths.len() > 0 {
        lemma_strings_push(paths, path);
        assert(request(paths).take(request(paths).len() - tail.len()) =~= head + strings(paths));
        assert(request(paths.push(path)) =~= head + strings(paths) + seq![','] + quoted(path)
            + tail);
    }
}

/// A list of texts in JSON goes on with one more text, quoted, after a comma
/// where it is not the first.
pub proof fn law_lists_grow_by_one_string(list: Seq<Seq<char>>, text: Seq<char>)
    ensures
        list_json(Seq::empty()) == seq!['[', ']'],
        list.len() == 0 ==> list_json(list.push(text)) == seq!['['] + quoted(text) + seq![']'],
        list.len() > 0 ==> list_json(list.push(text)) == list_json(list).drop_last() + seq![',']
            + quoted(text) + seq![']'],
{
    assert(strings(Seq::empty()) =~= Seq::empty());
    assert(list_json(Seq::empty()) =~= seq!['[', ']']);
    lemma_strings_push(list, text);
    assert(list_json(list.push(text)) =~= seq!['['] + strings(list.push(text)) + seq![']']);
    if list.len() > 0 {
        assert(list_json(list).drop_last() =~= seq!['['] + strings(list));
    }
}

/// An object of four members is those members in their order, with commas, in
/// braces; a member is its quoted name, a colon and its value.
pub proof fn law_objects_are_their_members(
    a: Seq<char>,
    b: Seq<char>,
    c: Seq<char>,
    d: Seq<char>,
    name: Seq<char>,
    value: Seq<char>,
    flag: bool,
)
    ensures
        object_json(seq![a, b, c, d]) == seq!['{'] + a + seq![','] + b + seq![','] + c + seq![',']
            + d + seq!['}'],
        member_json(name, value) == quoted(name) + seq![':'] + value,
        flag ==> flag_json(flag) == "true"@,
        !flag ==> flag_json(flag) == "false"@,
{
    lemma_four_pieces(a, b, c, d);
    assert(object_json(seq![a, b, c, d]) =~= seq!['{'] + a + seq![','] + b + seq![','] + c + seq![
        ',',
    ] + d + seq!['}']);
}

proof fn lemma_four_pieces(a: Seq<char>, b: Seq<char>, c: Seq<char>, d: Seq<char>)
    ensures
        comma_separated(seq![a, b, c, d]) == a + seq![','] + (b + seq![','] + (c + seq![','] + d)),
{
    assert(seq![a, b, c, d].skip(1) =~= seq![b, c, d]);
    assert(seq![b, c, d].skip(1) =~= seq![c, d]);
    assert(seq![c, d].skip(1) =~= seq![d]);
    assert(comma_separated(seq![d]) == d);
    assert(comma_separated(seq![c, d]) == c + seq![','] + d);
    assert(comma_separated(seq![b, c, d]) == b + seq![','] + (c + seq![','] + d));
}

proof fn lemma_separated_push(pieces: Seq<Seq<char>>, last: Seq<char>)
    ensures
        pieces.len() == 0 ==> comma_separated(pieces.push(last)) == last,
        pieces.len() > 0 ==> comma_separated(pieces.push(last)) == comma_separated(pieces) + seq![
            ',',
        ] + last,
    decreases pieces.len(),
{
    if pieces.len() > 0 {
        assert(pieces.push(last).skip(1) =~= pieces.skip(1).push(last));
        lemma_separated_push(pieces.skip(1), last);
        assert(comma_separated(pieces.push(last)) =~= comma_separated(pieces) + seq![','] + last);
    }
}

proof fn lemma_strings_push(list: Seq<Seq<char>>, text: Seq<char>)
    ensures
        list.len() == 0 ==> strings(list.push(text)) == quoted(text),
        list.len() > 0 ==> strings(list.push(text)) == strings(list) + seq![','] + quoted(text),
{
    let f = |t: Seq<char>| quoted(t);
    assert(list.push(text).map_values(f) =~= list.map_values(f).push(quoted(text)));
    lemma_separated_push(list.map_values(f), quoted(text));
}

proof fn lemma_plain_text(text: Seq<char>)
    requires
        forall|i: int|
            0 <= i < text.len() ==> (#[trigger] text[i]) as u32 >= 32 && text[i] != '"' && text[i]
                != '\\',
    ensures
        escaped(text) == text,
    decreases text.len(),
{
    if text.len() > 0 {
        assert forall|i: int| 0 <= i < text.skip(1).len() implies (
        #[trigger] text.skip(1)[i]) as u32 >= 32 && text.skip(1)[i] != '"' && text.skip(1)[i]
            != '\\' by {
            assert(text.skip(1)[i] == text[i + 1]);
        }
        lemma_plain_text(text.skip(1));
        assert(escaped(text) =~= seq![text[0]] + text.skip(1));
    }
    assert(escaped(text) =~= text);
}

proof fn lemma_request_text(p: Seq<Seq<char>>)
    ensures
        request(p) == "{\"encrypt\":false,\"password\":\"\",\"paths\":["@ + strings(p)
            + "],\"row_limit\":0}"@,
{
    reveal_strlit("encrypt");
    reveal_strlit("password");
    reveal_strlit("paths");
    reveal_strlit("row_limit");
    reveal_strlit("false");
    reveal_strlit("");
    reveal_strlit("{\"encrypt\":false,\"password\":\"\",\"paths\":[");
    reveal_strlit("],\"row_limit\":0}");
    lemma_plain_text("encrypt"@);
    lemma_plain_text("password"@);
    lemma_plain_text("paths"@);
    lemma_plain_text("row_limit"@);
    lemma_plain_text(""@);
    lemma_request_shape(p);
    assert(decimal(0) == seq!['0']);
    assert(request_head() =~= "{\"encrypt\":false,\"password\":\"\",\"paths\":["@);
    assert(seq![']'] + request_tail() =~= "],\"row_limit\":0}"@);
    assert(request(p) =~= "{\"encrypt\":false,\"password\":\"\",\"paths\":["@ + strings(p)
        + (seq![']'] + request_tail()));
}

} // verus!
