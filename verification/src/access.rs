//! Access decisions: the bearer token of the API, the CSRF token of posted
//! forms, and the database that belongs to a signed-in user.

use vstd::prelude::*;
use vstd::string::*;
use vstd::utf8::*;
use sha2::Digest;
use crate::csrf::{token_accepted, verify};
use crate::errors::KanbanError;
use crate::text::{
    digit_str, hex_digit, i64_to_decimal, joined, lemma_hex_digit_code, lemma_hex_digit_injective,
    lemma_signed_decimal_chars, lemma_signed_decimal_injective, signed_decimal, str_eq,
};

verus! {

/// Whether the value of an `Authorization` header grants API access: it must
/// be `Bearer ` followed by the API secret, `super-secret`.
pub fn bearer_authorized(authorization: Option<&str>) -> (granted: bool)
    ensures
        granted == (authorization matches Some(v) && v@ == "Bearer super-secret"@),
{
    match authorization {
        Some(v) => str_eq(v, "Bearer super-secret"),
        None => false,
    }
}

/// The `(name, value)` pairs that `form_urlencoded::parse` reads from a body.
pub uninterp spec fn form_pairs(body: Seq<u8>) -> Seq<(Seq<char>, Seq<char>)>;

/// `form_urlencoded::parse`, each pair taken as owned strings. The decoding
/// (`+` as space, percent escapes, lossy UTF-8) is the crate's and is named,
/// not stated.
#[verifier::external_body]
fn parse_form(body: &[u8]) -> (pairs: Vec<(String, String)>)
    ensures
        pairs@.map_values(|p: (String, String)| (p.0@, p.1@)) == form_pairs(body@),
{
    form_urlencoded::parse(body).map(|(name, value)| (name.into_owned(), value.into_owned())).collect()
}

/// The value of the first pair named `name`.
pub open spec fn first_value(pairs: Seq<(Seq<char>, Seq<char>)>, name: Seq<char>) -> Option<Seq<char>>
    decreases pairs.len(),
{
    if pairs.len() == 0 {
        None
    } else if pairs[0].0 == name {
        Some(pairs[0].1)
    } else {
        first_value(pairs.drop_first(), name)
    }
}

/// `first_value` finds the first pair whose name matches.
proof fn lemma_first_value_at(pairs: Seq<(Seq<char>, Seq<char>)>, name: Seq<char>, i: int)
    requires
        0 <= i <= pairs.len(),
        forall|j: int| 0 <= j < i ==> #[trigger] pairs[j].0 != name,
    ensures
        i < pairs.len() && pairs[i].0 == name ==> first_value(pairs, name) == Some(pairs[i].1),
        i == pairs.len() ==> first_value(pairs, name) is None,
    decreases i,
{
    if i > 0 {
        lemma_first_value_at(pairs.drop_first(), name, i - 1);
    }
}

/// The value of the first field named `name` in a URL-encoded form body.
pub fn form_value(body: &[u8], name: &str) -> (value: Option<String>)
    ensures
        match value {
            Some(v) => first_value(form_pairs(body@), name@) == Some(v@),
            None => first_value(form_pairs(body@), name@) is None,
        },
{
    let pairs = parse_form(body);
    let ghost views = pairs@.map_values(|p: (String, String)| (p.0@, p.1@));
    let mut i: usize = 0;
    while i < pairs.len()
        invariant
            i <= pairs@.len(),
            views == pairs@.map_values(|p: (String, String)| (p.0@, p.1@)),
            views == form_pairs(body@),
            forall|j: int| 0 <= j < i ==> #[trigger] views[j].0 != name@,
        decreases pairs@.len() - i,
    {
        if str_eq(pairs[i].0.as_str(), name) {
            proof {
                lemma_first_value_at(views, name@, i as int);
            }
            return Some(pairs[i].1.clone());
        }
        i = i + 1;
    }
    proof {
        lemma_first_value_at(views, name@, i as int);
    }
    None
}

/// Checks the `csrf_token` field of a posted form against the session's
/// secret; a missing or wrong token is refused.
pub fn check_csrf_form(body: &[u8], secret: &[u8; 32]) -> (res: Result<(), KanbanError>)
    ensures
        res is Ok <==> (first_value(form_pairs(body@), "csrf_token"@) matches Some(t)
            && token_accepted(encode_utf8(t), secret@)),
        res matches Err(e) ==> e matches KanbanError::RequestError(m) && m@ == "No CSRF token found."@,
{
    let token = form_value(body, "csrf_token");
    match token {
        Some(t) => {
            if verify(t.as_str(), secret) {
                Ok(())
            } else {
                Err(KanbanError::RequestError(String::from_str("No CSRF token found.")))
            }
        },
        None => Err(KanbanError::RequestError(String::from_str("No CSRF token found."))),
    }
}

/// Checks the CSRF token of a posted request against the session's secret:
/// the token may come in the `X-CSRF-Token` header (for JSON posts) or in
/// the `csrf_token` field of a URL-encoded form; either one that was masked
/// from the secret lets the request through.
pub fn check_csrf(header: Option<&str>, body: &[u8], secret: &[u8; 32]) -> (res: Result<(), KanbanError>)
    ensures
        res is Ok <==> (header matches Some(h) && token_accepted(encode_utf8(h@), secret@)) || (
        first_value(form_pairs(body@), "csrf_token"@) matches Some(t) && token_accepted(
            encode_utf8(t),
            secret@,
        )),
        res matches Err(e) ==> e matches KanbanError::RequestError(m) && m@ == "No CSRF token found."@,
{
    if let Some(h) = header {
        if verify(h, secret) {
            return Ok(());
        }
    }
    check_csrf_form(body, secret)
}

/// The SHA-256 digest of a byte sequence.
pub uninterp spec fn sha256_digest(data: Seq<u8>) -> Seq<u8>;

/// `Sha256::digest` from sha2. The digest is named, not stated; that it is
/// 32 bytes long is SHA-256's documented output size.
#[verifier::external_body]
fn sha256(data: &[u8]) -> (digest: Vec<u8>)
    ensures
        digest@ == sha256_digest(data@),
        digest@.len() == 32,
{
    sha2::Sha256::digest(data).to_vec()
}

/// A byte in lower-case hexadecimal without leading zeros, as `{:x?}`
/// writes it.
pub open spec fn hex_unpadded(b: u8) -> Seq<char> {
    if b < 16 {
        seq![hex_digit(b as int)]
    } else {
        seq![hex_digit(b as int / 16), hex_digit(b as int % 16)]
    }
}

/// A byte sequence as `{:x?}` writes it: `[a, 1f, ...]`.
pub open spec fn hex_list(bytes: Seq<u8>) -> Seq<char> {
    "["@ + joined(bytes.map_values(|b: u8| hex_unpadded(b)), ", "@) + "]"@
}

/// The bytes that a user's database id is the digest of: the user's id in
/// decimal followed by the name of the identity provider.
pub open spec fn database_key(user_id: int, source: Seq<char>) -> Seq<u8> {
    encode_utf8(signed_decimal(user_id)) + encode_utf8(source)
}

/// The id of the database of a user.
pub open spec fn database_id(user_id: int, source: Seq<char>) -> Seq<char> {
    hex_list(sha256_digest(database_key(user_id, source)))
}

/// A byte's rendering is one or two hexadecimal digits, and different bytes
/// render differently.
proof fn lemma_hex_unpadded(b: u8)
    ensures
        1 <= hex_unpadded(b).len() <= 2,
        forall|i: int| 0 <= i < hex_unpadded(b).len() ==> #[trigger] hex_unpadded(b)[i] != ','
            && hex_unpadded(b)[i] != ' ',
{
    if b < 16 {
        lemma_hex_digit_code(b as int);
    } else {
        lemma_hex_digit_code(b as int / 16);
        lemma_hex_digit_code(b as int % 16);
    }
}

proof fn lemma_hex_unpadded_injective(a: u8, b: u8)
    requires
        hex_unpadded(a) == hex_unpadded(b),
    ensures
        a == b,
{
    let ha = hex_unpadded(a);
    let hb = hex_unpadded(b);
    if a < 16 {
        assert(ha == seq![hex_digit(a as int)]);
        assert(ha.len() == 1);
    } else {
        assert(ha == seq![hex_digit(a as int / 16), hex_digit(a as int % 16)]);
        assert(ha.len() == 2);
    }
    if b < 16 {
        assert(hb == seq![hex_digit(b as int)]);
        assert(hb.len() == 1);
    } else {
        assert(hb == seq![hex_digit(b as int / 16), hex_digit(b as int % 16)]);
        assert(hb.len() == 2);
    }
    if a < 16 && b < 16 {
        assert(ha[0] == hex_digit(a as int));
        assert(hb[0] == hex_digit(b as int));
        lemma_hex_digit_injective(a as int, b as int);
    } else if a >= 16 && b >= 16 {
        assert(ha[0] == hex_digit(a as int / 16));
        assert(hb[0] == hex_digit(b as int / 16));
        assert(ha[1] == hex_digit(a as int % 16));
        assert(hb[1] == hex_digit(b as int % 16));
        lemma_hex_digit_injective(a as int / 16, b as int / 16);
        lemma_hex_digit_injective(a as int % 16, b as int % 16);
    }
}

/// Joining from the front: the first part, the separator, then the rest.
proof fn lemma_joined_front(parts: Seq<Seq<char>>, separator: Seq<char>)
    requires
        parts.len() >= 2,
    ensures
        joined(parts, separator) == parts[0] + separator + joined(parts.drop_first(), separator),
    decreases parts.len(),
{
    let rest = parts.drop_first();
    assert(joined(parts, separator) == joined(parts.drop_last(), separator) + separator + parts.last());
    if parts.len() > 2 {
        lemma_joined_front(parts.drop_last(), separator);
        assert(parts.drop_last().drop_first() =~= rest.drop_last());
        assert(parts.drop_last()[0] == parts[0]);
        assert(rest.last() == parts.last());
        assert(joined(rest, separator) == joined(rest.drop_last(), separator) + separator + rest.last());
        assert(joined(parts, separator) =~= parts[0] + separator + joined(rest, separator));
    } else {
        assert(rest.len() == 1);
        assert(rest[0] == parts[1]);
        assert(joined(rest, separator) == rest[0]);
        assert(parts.drop_last().len() == 1);
        assert(parts.drop_last()[0] == parts[0]);
        assert(joined(parts.drop_last(), separator) == parts[0]);
        assert(parts.last() == parts[1]);
    }
}

/// Joining non-empty parts gives a non-empty text.
proof fn lemma_joined_nonempty(parts: Seq<Seq<char>>, separator: Seq<char>)
    requires
        parts.len() >= 1,
        forall|i: int| 0 <= i < parts.len() ==> (#[trigger] parts[i]).len() >= 1,
    ensures
        joined(parts, separator).len() >= 1,
{
    if parts.len() >= 2 {
        lemma_joined_front(parts, separator);
    }
}

/// Different byte sequences have different `, `-joined renderings.
proof fn lemma_joined_hex_injective(a: Seq<u8>, b: Seq<u8>)
    requires
        joined(a.map_values(|x: u8| hex_unpadded(x)), ", "@) == joined(
            b.map_values(|x: u8| hex_unpadded(x)),
            ", "@,
        ),
    ensures
        a == b,
    decreases a.len(),
{
    reveal_strlit(", ");
    let sep = ", "@;
    let pa = a.map_values(|x: u8| hex_unpadded(x));
    let pb = b.map_values(|x: u8| hex_unpadded(x));
    assert forall|i: int| 0 <= i < pa.len() implies (#[trigger] pa[i]).len() >= 1 by {
        lemma_hex_unpadded(a[i]);
    }
    assert forall|i: int| 0 <= i < pb.len() implies (#[trigger] pb[i]).len() >= 1 by {
        lemma_hex_unpadded(b[i]);
    }
    if a.len() == 0 || b.len() == 0 {
        if a.len() > 0 {
            lemma_joined_nonempty(pa, sep);
        }
        if b.len() > 0 {
            lemma_joined_nonempty(pb, sep);
        }
        assert(a =~= b);
    } else if a.len() == 1 && b.len() == 1 {
        lemma_hex_unpadded_injective(a[0], b[0]);
        assert(a =~= b);
    } else if a.len() == 1 || b.len() == 1 {
        lemma_hex_unpadded(a[0]);
        lemma_hex_unpadded(b[0]);
        if a.len() >= 2 {
            lemma_joined_front(pa, sep);
            lemma_joined_nonempty(pa.drop_first(), sep);
        }
        if b.len() >= 2 {
            lemma_joined_front(pb, sep);
            lemma_joined_nonempty(pb.drop_first(), sep);
        }
    } else {
        lemma_joined_front(pa, sep);
        lemma_joined_front(pb, sep);
        lemma_hex_unpadded(a[0]);
        lemma_hex_unpadded(b[0]);
        let x = joined(pa, sep);
        let ka = pa[0].len();
        let kb = pb[0].len();
        if ka < kb {
            assert(x[ka as int] == ',');
            assert(x[ka as int] == pb[0][ka as int]);
        } else if kb < ka {
            assert(x[kb as int] == pa[0][kb as int]);
            assert(joined(pb, sep)[kb as int] == ',');
        }
        assert(ka == kb);
        assert(pa[0] =~= x.subrange(0, ka as int));
        assert(pb[0] =~= x.subrange(0, ka as int));
        lemma_hex_unpadded_injective(a[0], b[0]);
        let ra = joined(pa.drop_first(), sep);
        let rb = joined(pb.drop_first(), sep);
        assert(ra =~= x.subrange(ka as int + 2, x.len() as int));
        assert(rb =~= x.subrange(ka as int + 2, x.len() as int));
        assert(pa.drop_first() =~= a.drop_first().map_values(|x: u8| hex_unpadded(x)));
        assert(pb.drop_first() =~= b.drop_first().map_values(|x: u8| hex_unpadded(x)));
        lemma_joined_hex_injective(a.drop_first(), b.drop_first());
        assert(a =~= seq![a[0]] + a.drop_first());
        assert(b =~= seq![b[0]] + b.drop_first());
    }
}


/// The key of a user of either identity provider is the ASCII id in decimal
/// followed by the provider's name, which starts with a letter.
proof fn lemma_database_key(user_id: int, source: Seq<char>)
    requires
        source == "github"@ || source == "dev"@,
    ensures
        encode_utf8(signed_decimal(user_id)).len() == signed_decimal(user_id).len(),
        forall|i: int| 0 <= i < signed_decimal(user_id).len() ==> {
            let c = #[trigger] encode_utf8(signed_decimal(user_id))[i];
            c == 45 || 48 <= c <= 57
        },
        encode_utf8(source).len() >= 1,
        encode_utf8(source)[0] == 103 || encode_utf8(source)[0] == 100,
{
    reveal_strlit("github");
    reveal_strlit("dev");
    let d = signed_decimal(user_id);
    lemma_signed_decimal_chars(user_id);
    assert(is_ascii_chars(d));
    is_ascii_chars_encode_utf8(d);
    assert forall|i: int| 0 <= i < d.len() implies {
        let c = #[trigger] encode_utf8(d)[i];
        c == 45 || 48 <= c <= 57
    } by {
        assert(encode_utf8(d)[i] == d[i] as u8);
    }
    assert(is_ascii_chars(source));
    is_ascii_chars_encode_utf8(source);
    assert(encode_utf8(source)[0] == source[0] as u8);
}

/// Distinct users never share a database: for users of GitHub or of the
/// development sign-in, two database ids are equal exactly when the user ids
/// and the providers are, unless SHA-256 collides on the two keys.
pub proof fn lemma_database_id_isolated(u1: int, s1: Seq<char>, u2: int, s2: Seq<char>)
    requires
        s1 == "github"@ || s1 == "dev"@,
        s2 == "github"@ || s2 == "dev"@,
        sha256_digest(database_key(u1, s1)) == sha256_digest(database_key(u2, s2)) ==> database_key(
            u1,
            s1,
        ) == database_key(u2, s2),
    ensures
        database_id(u1, s1) == database_id(u2, s2) <==> (u1 == u2 && s1 == s2),
{
    if database_id(u1, s1) == database_id(u2, s2) {
        lemma_hex_list_injective(sha256_digest(database_key(u1, s1)), sha256_digest(database_key(u2, s2)));
        lemma_database_key(u1, s1);
        lemma_database_key(u2, s2);
        let d1 = encode_utf8(signed_decimal(u1));
        let d2 = encode_utf8(signed_decimal(u2));
        let e1 = encode_utf8(s1);
        let e2 = encode_utf8(s2);
        let k = database_key(u1, s1);
        assert(k == database_key(u2, s2));
        if d1.len() < d2.len() {
            assert(k[d1.len() as int] == e1[0]);
            assert(k[d1.len() as int] == d2[d1.len() as int]);
        } else if d2.len() < d1.len() {
            assert(k[d2.len() as int] == e2[0]);
            assert(k[d2.len() as int] == d1[d2.len() as int]);
        }
        assert(d1.len() == d2.len());
        assert(d1 =~= k.subrange(0, d1.len() as int));
        assert(d2 =~= k.subrange(0, d1.len() as int));
        assert(e1 =~= k.subrange(d1.len() as int, k.len() as int));
        assert(e2 =~= k.subrange(d1.len() as int, k.len() as int));
        encode_utf8_decode_utf8(signed_decimal(u1));
        encode_utf8_decode_utf8(signed_decimal(u2));
        encode_utf8_decode_utf8(s1);
        encode_utf8_decode_utf8(s2);
        lemma_signed_decimal_injective(u1, u2);
    }
}

/// Different byte sequences have different `{:x?}` renderings.
pub proof fn lemma_hex_list_injective(a: Seq<u8>, b: Seq<u8>)
    requires
        hex_list(a) == hex_list(b),
    ensures
        a == b,
{
    reveal_strlit("[");
    reveal_strlit("]");
    let ja = joined(a.map_values(|x: u8| hex_unpadded(x)), ", "@);
    let jb = joined(b.map_values(|x: u8| hex_unpadded(x)), ", "@);
    let t = hex_list(a);
    assert(ja =~= t.subrange(1, t.len() - 1));
    assert(jb =~= t.subrange(1, t.len() - 1));
    lemma_joined_hex_injective(a, b);
}

fn append_bytes(out: &mut Vec<u8>, text: &str)
    ensures
        final(out)@ == old(out)@ + encode_utf8(text@),
{
    let bytes = text.as_bytes();
    let ghost start = out@;
    let mut i: usize = 0;
    while i < bytes.len()
        invariant
            bytes@ == encode_utf8(text@),
            i <= bytes@.len(),
            out@ == start + bytes@.subrange(0, i as int),
        decreases bytes@.len() - i,
    {
        out.push(bytes[i]);
        proof {
            assert(bytes@.subrange(0, i + 1) =~= bytes@.subrange(0, i as int).push(bytes@[i as int]));
        }
        i = i + 1;
    }
    assert(bytes@.subrange(0, bytes@.len() as int) =~= bytes@);
}

fn hex_unpadded_text(b: u8) -> (text: String)
    ensures
        text@ == hex_unpadded(b),
{
    if b < 16 {
        String::from_str(digit_str(b as u64))
    } else {
        String::from_str(digit_str((b / 16) as u64)).concat(digit_str((b % 16) as u64))
    }
}

/// The id of the database that holds the boards of the user `user_id` of
/// the identity provider `source`.
pub fn get_database_id(user_id: i64, source: String) -> (id: String)
    ensures
        id@ == database_id(user_id as int, source@),
{
    let digits = i64_to_decimal(user_id);
    let mut data: Vec<u8> = Vec::new();
    append_bytes(&mut data, digits.as_str());
    append_bytes(&mut data, source.as_str());
    assert(data@ =~= encode_utf8(signed_decimal(user_id as int)) + encode_utf8(source@));
    let digest = sha256(data.as_slice());
    let ghost parts = digest@.map_values(|b: u8| hex_unpadded(b));
    let mut list = String::from_str("[");
    let mut i: usize = 0;
    while i < digest.len()
        invariant
            i <= digest@.len(),
            parts == digest@.map_values(|b: u8| hex_unpadded(b)),
            list@ == "["@ + joined(parts.subrange(0, i as int), ", "@),
        decreases digest@.len() - i,
    {
        if i > 0 {
            list.append(", ");
        }
        let part = hex_unpadded_text(digest[i]);
        list.append(part.as_str());
        proof {
            let next = parts.subrange(0, i + 1);
            assert(next.drop_last() =~= parts.subrange(0, i as int));
            if i == 0 {
                assert(next =~= seq![parts[0]]);
            }
        }
        i = i + 1;
    }
    assert(parts.subrange(0, digest@.len() as int) =~= parts);
    list.append("]");
    list
}

/// The SQLite connection URL of the database with the given id.
pub fn database_url(database_id: &str) -> (url: String)
    ensures
        url@ == "sqlite:./databases/"@ + database_id@ + ".kanban.db"@,
{
    String::from_str("sqlite:./databases/").concat(database_id).concat(".kanban.db")
}

/// Whether a new database is seeded with sample boards: the development
/// databases are, whose id starts with `dev`.
pub fn seeds_sample_data(database_id: &str) -> (seeds: bool)
    ensures
        seeds == (database_id@.len() >= 3 && database_id@.subrange(0, 3) == seq!['d', 'e', 'v']),
{
    if database_id.unicode_len() < 3 {
        return false;
    }
    let seeds = database_id.get_char(0) == 'd' && database_id.get_char(1) == 'e'
        && database_id.get_char(2) == 'v';
    proof {
        if seeds {
            assert(database_id@.subrange(0, 3) =~= seq!['d', 'e', 'v']);
        } else {
            if database_id@.subrange(0, 3) == seq!['d', 'e', 'v'] {
                assert(database_id@[0] == database_id@.subrange(0, 3)[0]);
                assert(database_id@[1] == database_id@.subrange(0, 3)[1]);
                assert(database_id@[2] == database_id@.subrange(0, 3)[2]);
            }
        }
    }
    seeds
}

} // verus!
