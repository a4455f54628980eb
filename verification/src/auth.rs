//! The handshake by which two devices prove who they are.

use crate::bytes::{append_be, to_be};
use crate::error::{AuthFault, TransferError};
use crate::identity::{device_id_from_public_key, device_id_of};
use crate::ids::Uuid;
use crate::protocol::{ClientHandshake, RejectionReason, ServerHandshake, PROTOCOL_VERSION};
use crate::text::same_bytes;
use vstd::prelude::*;
use vstd::utf8::encode_utf8;

verus! {

pub const NONCE_SIZE: usize = 32;

/// The longest name, version or feature, in bytes.
pub const MAX_IDENTITY_TEXT: usize = 1024;

/// The most features that a device may name.
pub const MAX_FEATURES: usize = 64;

pub const CLIENT_DOMAIN: &'static str = "FastSync authenticated client handshake v2";

pub const SERVER_DOMAIN: &'static str = "FastSync authenticated server handshake v2";

/// Bytes after their length.
pub open spec fn field(bytes: Seq<u8>) -> Seq<u8> {
    to_be(bytes.len(), 8) + bytes
}

pub open spec fn text_field(text: Seq<char>) -> Seq<u8> {
    field(encode_utf8(text))
}

/// The first `n` features, each after its length.
pub open spec fn feature_fields(features: Seq<String>, n: int) -> Seq<u8>
    decreases n,
{
    if n <= 0 {
        Seq::<u8>::empty()
    } else {
        feature_fields(features, n - 1) + text_field(features[n - 1]@)
    }
}

/// The features after their number.
pub open spec fn features_field(features: Seq<String>) -> Seq<u8> {
    to_be(features.len(), 8) + feature_fields(features, features.len() as int)
}

/// Some runs of bytes, one after the other.
pub open spec fn concat(parts: Seq<Seq<u8>>) -> Seq<u8>
    decreases parts.len(),
{
    if parts.len() == 0 {
        Seq::<u8>::empty()
    } else {
        concat(parts.drop_last()) + parts.last()
    }
}

/// The parts of what a client signs.
pub open spec fn client_parts(handshake: ClientHandshake) -> Seq<Seq<u8>> {
    seq![
        text_field(CLIENT_DOMAIN@),
        to_be(handshake.protocol_version as nat, 2),
        handshake.device_id.spec_bytes(),
        text_field(handshake.device_name@),
        text_field(handshake.agent_version@),
        features_field(handshake.features@),
        field(handshake.nonce@),
        field(handshake.public_key@),
        field(handshake.tls_certificate_binding@),
    ]
}

/// What a client signs.
pub open spec fn client_transcript_of(handshake: ClientHandshake) -> Seq<u8> {
    concat(client_parts(handshake))
}

/// The parts of what a server signs.
pub open spec fn server_parts(client: ClientHandshake, server: ServerHandshake) -> Seq<Seq<u8>> {
    seq![
        text_field(SERVER_DOMAIN@),
        field(client_transcript_of(client)),
        field(client.signature@),
        to_be(server.protocol_version as nat, 2),
        client.device_id.spec_bytes(),
        server.device_id.spec_bytes(),
        field(client.nonce@),
        field(server.nonce@),
        field(client.public_key@),
        field(server.public_key@),
        text_field(server.device_name@),
        text_field(server.agent_version@),
        features_field(server.features@),
        field(server.tls_certificate_binding@),
    ]
}

/// What a server signs: the whole of the client's message and its own.
pub open spec fn server_transcript_of(client: ClientHandshake, server: ServerHandshake) -> Seq<u8> {
    concat(server_parts(client, server))
}

proof fn lemma_concat_take(parts: Seq<Seq<u8>>, n: int)
    requires
        0 <= n < parts.len(),
    ensures
        concat(parts.take(n + 1)) == concat(parts.take(n)) + parts[n],
{
    assert(parts.take(n + 1).drop_last() =~= parts.take(n));
}

/// Appends bytes after their length.
pub fn append_field(transcript: &mut Vec<u8>, bytes: &[u8])
    ensures
        final(transcript)@ == old(transcript)@ + field(bytes@),
{
    append_be(transcript, bytes.len() as u128, 8);
    transcript.extend_from_slice(bytes);
    assert(transcript@ =~= old(transcript)@ + field(bytes@));
}

fn append_text(transcript: &mut Vec<u8>, text: &str)
    ensures
        final(transcript)@ == old(transcript)@ + text_field(text@),
{
    append_field(transcript, text.as_bytes());
}

fn append_id(transcript: &mut Vec<u8>, id: &Uuid)
    ensures
        final(transcript)@ == old(transcript)@ + id.spec_bytes(),
{
    let bytes = id.to_bytes();
    transcript.extend_from_slice(&bytes);
    assert(transcript@ =~= old(transcript)@ + id.spec_bytes());
}

/// Appends features after their number.
pub fn append_features(transcript: &mut Vec<u8>, features: &[String])
    ensures
        final(transcript)@ == old(transcript)@ + features_field(features@),
{
    append_be(transcript, features.len() as u128, 8);
    let ghost start = transcript@;
    let mut i: usize = 0;
    assert(start + feature_fields(features@, 0) =~= start);
    while i < features.len()
        invariant
            i <= features.len(),
            transcript@ == start + feature_fields(features@, i as int),
        decreases features.len() - i,
    {
        append_text(transcript, features[i].as_str());
        assert(transcript@ =~= start + feature_fields(features@, i + 1));
        i += 1;
    }
    assert(transcript@ =~= old(transcript)@ + features_field(features@));
}

/// What a client signs.
pub fn client_transcript(handshake: &ClientHandshake) -> (transcript: Vec<u8>)
    ensures
        transcript@ == client_transcript_of(*handshake),
{
    let ghost parts = client_parts(*handshake);
    let mut transcript: Vec<u8> = Vec::new();
    append_text(&mut transcript, CLIENT_DOMAIN);
    append_be(&mut transcript, handshake.protocol_version as u128, 2);
    append_id(&mut transcript, &handshake.device_id);
    append_text(&mut transcript, handshake.device_name.as_str());
    append_text(&mut transcript, handshake.agent_version.as_str());
    append_features(&mut transcript, &handshake.features);
    append_field(&mut transcript, &handshake.nonce);
    append_field(&mut transcript, &handshake.public_key);
    append_field(&mut transcript, &handshake.tls_certificate_binding);
    proof {
        assert(parts.take(0) =~= Seq::<Seq<u8>>::empty());
        lemma_concat_take(parts, 0);
        lemma_concat_take(parts, 1);
        lemma_concat_take(parts, 2);
        lemma_concat_take(parts, 3);
        lemma_concat_take(parts, 4);
        lemma_concat_take(parts, 5);
        lemma_concat_take(parts, 6);
        lemma_concat_take(parts, 7);
        lemma_concat_take(parts, 8);
        assert(parts.take(9) =~= parts);
    }
    transcript
}

/// What a server signs.
pub fn server_transcript(client: &ClientHandshake, server: &ServerHandshake) -> (transcript: Vec<u8>)
    ensures
        transcript@ == server_transcript_of(*client, *server),
{
    let ghost parts = server_parts(*client, *server);
    let mut transcript: Vec<u8> = Vec::new();
    append_text(&mut transcript, SERVER_DOMAIN);
    append_field(&mut transcript, &client_transcript(client));
    append_field(&mut transcript, &client.signature);
    append_be(&mut transcript, server.protocol_version as u128, 2);
    append_id(&mut transcript, &client.device_id);
    append_id(&mut transcript, &server.device_id);
    append_field(&mut transcript, &client.nonce);
    append_field(&mut transcript, &server.nonce);
    append_field(&mut transcript, &client.public_key);
    append_field(&mut transcript, &server.public_key);
    append_text(&mut transcript, server.device_name.as_str());
    append_text(&mut transcript, server.agent_version.as_str());
    append_features(&mut transcript, &server.features);
    append_field(&mut transcript, &server.tls_certificate_binding);
    proof {
        assert(parts.take(0) =~= Seq::<Seq<u8>>::empty());
        lemma_concat_take(parts, 0);
        lemma_concat_take(parts, 1);
        lemma_concat_take(parts, 2);
        lemma_concat_take(parts, 3);
        lemma_concat_take(parts, 4);
        lemma_concat_take(parts, 5);
        lemma_concat_take(parts, 6);
        lemma_concat_take(parts, 7);
        lemma_concat_take(parts, 8);
        lemma_concat_take(parts, 9);
        lemma_concat_take(parts, 10);
        lemma_concat_take(parts, 11);
        lemma_concat_take(parts, 12);
        lemma_concat_take(parts, 13);
        assert(parts.take(14) =~= parts);
    }
    transcript
}

proof fn lemma_concat_first(parts: Seq<Seq<u8>>)
    requires
        parts.len() > 0,
    ensures
        concat(parts) == parts[0] + concat(parts.skip(1)),
    decreases parts.len(),
{
    let rest = parts.skip(1);
    if parts.len() == 1 {
        assert(parts.drop_last() =~= Seq::<Seq<u8>>::empty());
        assert(rest =~= Seq::<Seq<u8>>::empty());
        assert(concat(parts) =~= parts[0] + concat(rest));
    } else {
        lemma_concat_first(parts.drop_last());
        assert(parts.drop_last().skip(1) =~= rest.drop_last());
        assert(rest.last() == parts.last());
        assert(parts[0] + concat(rest.drop_last()) + parts.last() =~= parts[0] + (concat(
            rest.drop_last(),
        ) + parts.last()));
    }
}

/// Where one of the two begins a run of bytes and so does the other, they are
/// the same.
pub open spec fn delimits(a: Seq<u8>, b: Seq<u8>) -> bool {
    forall|x: Seq<u8>, y: Seq<u8>| #[trigger] a.add(x) == #[trigger] b.add(y) ==> a == b
}

proof fn lemma_same_rest(a: Seq<u8>, x: Seq<u8>, y: Seq<u8>)
    requires
        a + x == a + y,
    ensures
        x == y,
{
    assert(x =~= (a + x).skip(a.len() as int));
    assert(y =~= (a + y).skip(a.len() as int));
}

proof fn lemma_parts_agree(p: Seq<Seq<u8>>, q: Seq<Seq<u8>>)
    requires
        p.len() == q.len(),
        forall|i: int| 0 <= i < p.len() ==> delimits(#[trigger] p[i], q[i]),
        concat(p) == concat(q),
    ensures
        p == q,
    decreases p.len(),
{
    if p.len() > 0 {
        lemma_concat_first(p);
        lemma_concat_first(q);
        let (x, y) = (concat(p.skip(1)), concat(q.skip(1)));
        assert(delimits(p[0], q[0]));
        assert(p[0].add(x) == q[0].add(y));
        lemma_same_rest(p[0], x, y);
        assert forall|i: int| 0 <= i < p.skip(1).len() implies delimits(
            #[trigger] p.skip(1)[i],
            q.skip(1)[i],
        ) by {
            assert(delimits(p[i + 1], q[i + 1]));
        }
        lemma_parts_agree(p.skip(1), q.skip(1));
        assert(p =~= seq![p[0]] + p.skip(1));
        assert(q =~= seq![q[0]] + q.skip(1));
    } else {
        assert(p =~= q);
    }
}

proof fn lemma_fixed_delimits(a: Seq<u8>, b: Seq<u8>)
    requires
        a.len() == b.len(),
    ensures
        delimits(a, b),
{
    assert forall|x: Seq<u8>, y: Seq<u8>| #[trigger] a.add(x) == #[trigger] b.add(y) implies a
        == b by {
        assert(a =~= a.add(x).take(a.len() as int));
        assert(b =~= b.add(y).take(b.len() as int));
    }
}

proof fn lemma_same_field(a: Seq<u8>, b: Seq<u8>, x: Seq<u8>, y: Seq<u8>)
    requires
        a.len() <= u64::MAX,
        b.len() <= u64::MAX,
        field(a) + x == field(b) + y,
    ensures
        a == b,
        x == y,
{
    crate::bytes::lemma_to_be_len(a.len(), 8);
    crate::bytes::lemma_to_be_len(b.len(), 8);
    assert(to_be(a.len(), 8) =~= (field(a) + x).take(8));
    assert(to_be(b.len(), 8) =~= (field(b) + y).take(8));
    crate::bytes::law_u64_roundtrip(a.len() as u64);
    crate::bytes::law_u64_roundtrip(b.len() as u64);
    assert(a =~= (field(a) + x).subrange(8, 8 + a.len() as int));
    assert(b =~= (field(b) + y).subrange(8, 8 + b.len() as int));
    lemma_same_rest(field(a), x, y);
}

proof fn lemma_field_delimits(a: Seq<u8>, b: Seq<u8>)
    requires
        a.len() <= u64::MAX,
        b.len() <= u64::MAX,
    ensures
        delimits(field(a), field(b)),
{
    assert forall|x: Seq<u8>, y: Seq<u8>| #[trigger]
        field(a).add(x) == #[trigger] field(b).add(y) implies field(a) == field(b) by {
        lemma_same_field(a, b, x, y);
    }
}

proof fn lemma_field_is_injective(a: Seq<u8>, b: Seq<u8>)
    requires
        a.len() <= u64::MAX,
        b.len() <= u64::MAX,
        field(a) == field(b),
    ensures
        a == b,
{
    lemma_same_field(a, b, Seq::<u8>::empty(), Seq::<u8>::empty());
}

proof fn lemma_text_field_is_injective(a: Seq<char>, b: Seq<char>)
    requires
        encode_utf8(a).len() <= u64::MAX,
        encode_utf8(b).len() <= u64::MAX,
        text_field(a) == text_field(b),
    ensures
        a == b,
{
    lemma_field_is_injective(encode_utf8(a), encode_utf8(b));
    vstd::utf8::encode_utf8_decode_utf8(a);
    vstd::utf8::encode_utf8_decode_utf8(b);
}

/// Every feature is short enough to be counted.
pub open spec fn are_sized(features: Seq<String>) -> bool {
    features.len() <= u64::MAX && forall|i: int|
        0 <= i < features.len() ==> encode_utf8((#[trigger] features[i])@).len() <= u64::MAX
}

/// The same features in the same order.
pub open spec fn same_features(f: Seq<String>, g: Seq<String>) -> bool {
    crate::text::views(f) == crate::text::views(g)
}

proof fn lemma_same_feature_fields(
    f: Seq<String>,
    g: Seq<String>,
    n: int,
    x: Seq<u8>,
    y: Seq<u8>,
)
    requires
        are_sized(f),
        are_sized(g),
        0 <= n <= f.len(),
        n <= g.len(),
        feature_fields(f, n) + x == feature_fields(g, n) + y,
    ensures
        feature_fields(f, n) == feature_fields(g, n),
        x == y,
        forall|i: int| 0 <= i < n ==> (#[trigger] f[i])@ == g[i]@,
    decreases n,
{
    if n > 0 {
        let (a, b) = (text_field(f[n - 1]@), text_field(g[n - 1]@));
        assert(feature_fields(f, n) + x =~= feature_fields(f, n - 1) + (a + x));
        assert(feature_fields(g, n) + y =~= feature_fields(g, n - 1) + (b + y));
        lemma_same_feature_fields(f, g, n - 1, a + x, b + y);
        assert(encode_utf8(f[n - 1]@).len() <= u64::MAX);
        assert(encode_utf8(g[n - 1]@).len() <= u64::MAX);
        lemma_same_field(encode_utf8(f[n - 1]@), encode_utf8(g[n - 1]@), x, y);
        lemma_text_field_is_injective(f[n - 1]@, g[n - 1]@);
    } else {
        assert(feature_fields(f, n) + x =~= x);
        assert(feature_fields(g, n) + y =~= y);
    }
}

proof fn lemma_same_features(f: Seq<String>, g: Seq<String>, x: Seq<u8>, y: Seq<u8>)
    requires
        are_sized(f),
        are_sized(g),
        features_field(f) + x == features_field(g) + y,
    ensures
        features_field(f) == features_field(g),
        same_features(f, g),
{
    let (m, n) = (to_be(f.len(), 8), to_be(g.len(), 8));
    let (a, b) = (
        feature_fields(f, f.len() as int),
        feature_fields(g, g.len() as int),
    );
    crate::bytes::lemma_to_be_len(f.len(), 8);
    crate::bytes::lemma_to_be_len(g.len(), 8);
    assert(features_field(f) + x =~= m + (a + x));
    assert(features_field(g) + y =~= n + (b + y));
    assert(m =~= (m + (a + x)).take(8));
    assert(n =~= (n + (b + y)).take(8));
    crate::bytes::law_u64_roundtrip(f.len() as u64);
    crate::bytes::law_u64_roundtrip(g.len() as u64);
    lemma_same_rest(m, a + x, b + y);
    lemma_same_feature_fields(f, g, f.len() as int, x, y);
    assert(crate::text::views(f) =~= crate::text::views(g));
}

proof fn lemma_features_delimit(f: Seq<String>, g: Seq<String>)
    requires
        are_sized(f),
        are_sized(g),
    ensures
        delimits(features_field(f), features_field(g)),
{
    assert forall|x: Seq<u8>, y: Seq<u8>| #[trigger]
        features_field(f).add(x) == #[trigger] features_field(g).add(y) implies features_field(f)
        == features_field(g) by {
        lemma_same_features(f, g, x, y);
    }
}

/// The fields of a client's message have lengths that eight bytes can hold.
pub open spec fn is_sized_client(handshake: ClientHandshake) -> bool {
    &&& encode_utf8(handshake.device_name@).len() <= u64::MAX
    &&& encode_utf8(handshake.agent_version@).len() <= u64::MAX
    &&& are_sized(handshake.features@)
    &&& handshake.nonce@.len() <= u64::MAX
    &&& handshake.public_key@.len() <= u64::MAX
    &&& handshake.tls_certificate_binding@.len() <= u64::MAX
    &&& handshake.signature@.len() <= u64::MAX
}

pub open spec fn is_sized_server(handshake: ServerHandshake) -> bool {
    &&& encode_utf8(handshake.device_name@).len() <= u64::MAX
    &&& encode_utf8(handshake.agent_version@).len() <= u64::MAX
    &&& are_sized(handshake.features@)
    &&& handshake.nonce@.len() <= u64::MAX
    &&& handshake.public_key@.len() <= u64::MAX
    &&& handshake.tls_certificate_binding@.len() <= u64::MAX
}

/// Two clients claim the same, whatever their signatures.
pub open spec fn same_client_claims(a: ClientHandshake, b: ClientHandshake) -> bool {
    &&& a.protocol_version == b.protocol_version
    &&& a.device_id == b.device_id
    &&& a.device_name@ == b.device_name@
    &&& a.agent_version@ == b.agent_version@
    &&& same_features(a.features@, b.features@)
    &&& a.nonce@ == b.nonce@
    &&& a.public_key@ == b.public_key@
    &&& a.tls_certificate_binding@ == b.tls_certificate_binding@
}

pub open spec fn same_server_claims(a: ServerHandshake, b: ServerHandshake) -> bool {
    &&& a.protocol_version == b.protocol_version
    &&& a.device_id == b.device_id
    &&& a.device_name@ == b.device_name@
    &&& a.agent_version@ == b.agent_version@
    &&& same_features(a.features@, b.features@)
    &&& a.nonce@ == b.nonce@
    &&& a.public_key@ == b.public_key@
    &&& a.tls_certificate_binding@ == b.tls_certificate_binding@
}

proof fn lemma_same_version(a: u16, b: u16)
    requires
        to_be(a as nat, 2) == to_be(b as nat, 2),
    ensures
        a == b,
{
    crate::bytes::law_u16_roundtrip(a);
    crate::bytes::law_u16_roundtrip(b);
}

proof fn lemma_same_id(a: Uuid, b: Uuid)
    requires
        a.spec_bytes() == b.spec_bytes(),
    ensures
        a == b,
{
    crate::bytes::law_u128_roundtrip(a.bits);
    crate::bytes::law_u128_roundtrip(b.bits);
}

/// The signature of a client covers all that it claims: two messages with the
/// same transcript claim the same.
pub proof fn law_client_transcript_covers_claims(a: ClientHandshake, b: ClientHandshake)
    requires
        is_sized_client(a),
        is_sized_client(b),
        client_transcript_of(a) == client_transcript_of(b),
    ensures
        same_client_claims(a, b),
{
    let (p, q) = (client_parts(a), client_parts(b));
    crate::bytes::lemma_to_be_len(a.protocol_version as nat, 2);
    crate::bytes::lemma_to_be_len(b.protocol_version as nat, 2);
    crate::bytes::lemma_to_be_len(a.device_id.bits as nat, 16);
    crate::bytes::lemma_to_be_len(b.device_id.bits as nat, 16);
    assert forall|i: int| 0 <= i < p.len() implies delimits(#[trigger] p[i], q[i]) by {
        if i == 0 || i == 1 || i == 2 {
            lemma_fixed_delimits(p[i], q[i]);
        } else if i == 3 {
            lemma_field_delimits(encode_utf8(a.device_name@), encode_utf8(b.device_name@));
        } else if i == 4 {
            lemma_field_delimits(encode_utf8(a.agent_version@), encode_utf8(b.agent_version@));
        } else if i == 5 {
            lemma_features_delimit(a.features@, b.features@);
        } else if i == 6 {
            lemma_field_delimits(a.nonce@, b.nonce@);
        } else if i == 7 {
            lemma_field_delimits(a.public_key@, b.public_key@);
        } else {
            lemma_field_delimits(a.tls_certificate_binding@, b.tls_certificate_binding@);
        }
    }
    lemma_parts_agree(p, q);
    assert(p[1] == q[1] && p[2] == q[2] && p[3] == q[3] && p[4] == q[4]);
    assert(p[5] == q[5] && p[6] == q[6] && p[7] == q[7] && p[8] == q[8]);
    lemma_same_version(a.protocol_version, b.protocol_version);
    lemma_same_id(a.device_id, b.device_id);
    lemma_text_field_is_injective(a.device_name@, b.device_name@);
    lemma_text_field_is_injective(a.agent_version@, b.agent_version@);
    lemma_same_features(
        a.features@,
        b.features@,
        Seq::<u8>::empty(),
        Seq::<u8>::empty(),
    );
    lemma_field_is_injective(a.nonce@, b.nonce@);
    lemma_field_is_injective(a.public_key@, b.public_key@);
    lemma_field_is_injective(a.tls_certificate_binding@, b.tls_certificate_binding@);
}

/// The signature of a server covers all that it claims and the client's whole
/// message: an answer to one client is no answer to another.
pub proof fn law_server_transcript_covers_claims(
    c: ClientHandshake,
    s: ServerHandshake,
    d: ClientHandshake,
    t: ServerHandshake,
)
    requires
        is_sized_client(c),
        is_sized_client(d),
        is_sized_server(s),
        is_sized_server(t),
        client_transcript_of(c).len() <= u64::MAX,
        client_transcript_of(d).len() <= u64::MAX,
        server_transcript_of(c, s) == server_transcript_of(d, t),
    ensures
        same_server_claims(s, t),
        same_client_claims(c, d),
        c.signature@ == d.signature@,
{
    let (p, q) = (server_parts(c, s), server_parts(d, t));
    crate::bytes::lemma_to_be_len(s.protocol_version as nat, 2);
    crate::bytes::lemma_to_be_len(t.protocol_version as nat, 2);
    crate::bytes::lemma_to_be_len(c.device_id.bits as nat, 16);
    crate::bytes::lemma_to_be_len(d.device_id.bits as nat, 16);
    crate::bytes::lemma_to_be_len(s.device_id.bits as nat, 16);
    crate::bytes::lemma_to_be_len(t.device_id.bits as nat, 16);
    assert forall|i: int| 0 <= i < p.len() implies delimits(#[trigger] p[i], q[i]) by {
        if i == 0 || i == 3 || i == 4 || i == 5 {
            lemma_fixed_delimits(p[i], q[i]);
        } else if i == 1 {
            lemma_field_delimits(client_transcript_of(c), client_transcript_of(d));
        } else if i == 2 {
            lemma_field_delimits(c.signature@, d.signature@);
        } else if i == 6 {
            lemma_field_delimits(c.nonce@, d.nonce@);
        } else if i == 7 {
            lemma_field_delimits(s.nonce@, t.nonce@);
        } else if i == 8 {
            lemma_field_delimits(c.public_key@, d.public_key@);
        } else if i == 9 {
            lemma_field_delimits(s.public_key@, t.public_key@);
        } else if i == 10 {
            lemma_field_delimits(encode_utf8(s.device_name@), encode_utf8(t.device_name@));
        } else if i == 11 {
            lemma_field_delimits(encode_utf8(s.agent_version@), encode_utf8(t.agent_version@));
        } else if i == 12 {
            lemma_features_delimit(s.features@, t.features@);
        } else {
            lemma_field_delimits(s.tls_certificate_binding@, t.tls_certificate_binding@);
        }
    }
    lemma_parts_agree(p, q);
    assert(p[1] == q[1] && p[2] == q[2] && p[3] == q[3] && p[5] == q[5]);
    assert(p[7] == q[7] && p[9] == q[9] && p[10] == q[10] && p[11] == q[11]);
    assert(p[12] == q[12] && p[13] == q[13]);
    lemma_field_is_injective(client_transcript_of(c), client_transcript_of(d));
    law_client_transcript_covers_claims(c, d);
    lemma_field_is_injective(c.signature@, d.signature@);
    lemma_same_version(s.protocol_version, t.protocol_version);
    lemma_same_id(s.device_id, t.device_id);
    lemma_text_field_is_injective(s.device_name@, t.device_name@);
    lemma_text_field_is_injective(s.agent_version@, t.agent_version@);
    lemma_same_features(
        s.features@,
        t.features@,
        Seq::<u8>::empty(),
        Seq::<u8>::empty(),
    );
    lemma_field_is_injective(s.nonce@, t.nonce@);
    lemma_field_is_injective(s.public_key@, t.public_key@);
    lemma_field_is_injective(s.tls_certificate_binding@, t.tls_certificate_binding@);
}

proof fn lemma_domains_differ()
    ensures
        CLIENT_DOMAIN@ != SERVER_DOMAIN@,
        CLIENT_DOMAIN@.len() == 42,
        SERVER_DOMAIN@.len() == 42,
        vstd::utf8::is_ascii_chars(CLIENT_DOMAIN@),
        vstd::utf8::is_ascii_chars(SERVER_DOMAIN@),
{
    reveal_strlit("FastSync authenticated client handshake v2");
    reveal_strlit("FastSync authenticated server handshake v2");
    assert(CLIENT_DOMAIN@[23] != SERVER_DOMAIN@[23]);
}

proof fn lemma_domain_fields_differ(x: Seq<u8>, y: Seq<u8>)
    ensures
        text_field(CLIENT_DOMAIN@) + x != text_field(SERVER_DOMAIN@) + y,
{
    let (m, n) = (encode_utf8(CLIENT_DOMAIN@), encode_utf8(SERVER_DOMAIN@));
    lemma_domains_differ();
    vstd::utf8::is_ascii_chars_encode_utf8(CLIENT_DOMAIN@);
    vstd::utf8::is_ascii_chars_encode_utf8(SERVER_DOMAIN@);
    if field(m) + x == field(n) + y {
        lemma_same_field(m, n, x, y);
        vstd::utf8::encode_utf8_decode_utf8(CLIENT_DOMAIN@);
        vstd::utf8::encode_utf8_decode_utf8(SERVER_DOMAIN@);
    }
}

/// What a client signs is never what a server signs.
pub proof fn law_roles_sign_differently(
    a: ClientHandshake,
    c: ClientHandshake,
    s: ServerHandshake,
)
    ensures
        client_transcript_of(a) != server_transcript_of(c, s),
{
    let (p, q) = (client_parts(a), server_parts(c, s));
    lemma_concat_first(p);
    lemma_concat_first(q);
    lemma_domain_fields_differ(concat(p.skip(1)), concat(q.skip(1)));
}

/// Whether some bytes are an Ed25519 public key.
pub uninterp spec fn ed25519_key_valid(public_key: Seq<u8>) -> bool;

/// Whether a signature of a message under an Ed25519 public key is valid by the
/// strict rules.
pub uninterp spec fn ed25519_verified(
    public_key: Seq<u8>,
    message: Seq<u8>,
    signature: Seq<u8>,
) -> bool;

/// `ed25519_dalek::VerifyingKey::from_bytes`: whether the bytes are a public
/// key, that is, whether they encode a point.
#[verifier::external_body]
fn is_public_key(bytes: &[u8; 32]) -> (valid: bool)
    ensures
        valid == ed25519_key_valid(bytes@),
{
    ed25519_dalek::VerifyingKey::from_bytes(bytes).is_ok()
}

/// `ed25519_dalek::VerifyingKey::verify_strict`: whether the signature of the
/// message is valid under the public key; under what is no public key, none is.
/// That what a secret key signs is valid under its public key is not claimed: the
/// strict rules refuse signatures with a nonce of small order, however they arise.
#[verifier::external_body]
fn verify_strict(public_key: &[u8; 32], message: &[u8], signature: &[u8; 64]) -> (valid: bool)
    ensures
        valid == ed25519_verified(public_key@, message@, signature@),
{
    match ed25519_dalek::VerifyingKey::from_bytes(public_key) {
        Ok(key) => {
            key.verify_strict(message, &ed25519_dalek::Signature::from_bytes(signature)).is_ok()
        }
        Err(_) => false,
    }
}

/// A failed authentication.
pub open spec fn auth_error(fault: AuthFault) -> TransferError {
    TransferError::Authentication(fault)
}

/// Why a signature is not accepted, if it is not.
pub open spec fn signature_fault(
    device_id: Uuid,
    public_key: Seq<u8>,
    signature: Seq<u8>,
    transcript: Seq<u8>,
) -> Option<TransferError> {
    if !ed25519_key_valid(public_key) {
        Some(auth_error(AuthFault::MalformedKey))
    } else if signature.len() != 64 {
        Some(auth_error(AuthFault::MalformedSignature))
    } else if !ed25519_verified(public_key, transcript, signature) {
        Some(auth_error(AuthFault::InvalidSignature { device_id }))
    } else {
        None
    }
}

/// Accepts the signature of a transcript under the key of a device.
pub fn verify_identity_signature(
    device_id: Uuid,
    public_key: &[u8; 32],
    signature: &[u8],
    transcript: &[u8],
) -> (result: Result<(), TransferError>)
    ensures
        match result {
            Ok(_) => signature_fault(device_id, public_key@, signature@, transcript@) is None,
            Err(error) => signature_fault(device_id, public_key@, signature@, transcript@) == Some(
                error,
            ),
        },
{
    if !is_public_key(public_key) {
        return Err(TransferError::Authentication(AuthFault::MalformedKey));
    }
    if signature.len() != 64 {
        return Err(TransferError::Authentication(AuthFault::MalformedSignature));
    }
    let mut bytes: [u8; 64] = [0u8;64];
    let mut i: usize = 0;
    while i < 64
        invariant
            i <= 64,
            signature@.len() == 64,
            forall|k: int| 0 <= k < i ==> bytes@[k] == signature@[k],
        decreases 64 - i,
    {
        bytes[i] = signature[i];
        i += 1;
    }
    assert(bytes@ =~= signature@);
    if verify_strict(public_key, transcript, &bytes) {
        Ok(())
    } else {
        Err(TransferError::Authentication(AuthFault::InvalidSignature { device_id }))
    }
}

/// The bytes as an array, if there are thirty-two of them.
pub fn array_32(value: &[u8]) -> (result: Result<[u8; 32], TransferError>)
    ensures
        match result {
            Ok(array) => value@.len() == 32 && array@ == value@,
            Err(error) => value@.len() != 32 && error == auth_error(AuthFault::KeyLength),
        },
{
    if value.len() != 32 {
        return Err(TransferError::Authentication(AuthFault::KeyLength));
    }
    let mut array: [u8; 32] = [0u8;32];
    let mut i: usize = 0;
    while i < 32
        invariant
            i <= 32,
            value@.len() == 32,
            forall|k: int| 0 <= k < i ==> array@[k] == value@[k],
        decreases 32 - i,
    {
        array[i] = value[i];
        i += 1;
    }
    assert(array@ =~= value@);
    Ok(array)
}

/// The names in a handshake are there and not too long.
pub open spec fn has_plain_names(
    device_name: Seq<char>,
    agent_version: Seq<char>,
    features: Seq<String>,
) -> bool {
    &&& device_name.len() > 0
    &&& encode_utf8(device_name).len() <= MAX_IDENTITY_TEXT
    &&& encode_utf8(agent_version).len() <= MAX_IDENTITY_TEXT
    &&& features.len() <= MAX_FEATURES
    &&& forall|i: int|
        0 <= i < features.len() ==> encode_utf8((#[trigger] features[i])@).len()
            <= MAX_IDENTITY_TEXT
}

/// Why the fields of a handshake are not accepted, if they are not.
pub open spec fn fields_fault(
    protocol_version: u16,
    device_id: Uuid,
    plain_names: bool,
    nonce: Seq<u8>,
    public_key: Seq<u8>,
    binding: Seq<u8>,
    expected_binding: Seq<u8>,
) -> Option<TransferError> {
    if protocol_version != PROTOCOL_VERSION {
        Some(
            TransferError::ProtocolVersionMismatch {
                expected: PROTOCOL_VERSION,
                received: protocol_version,
            },
        )
    } else if !plain_names {
        Some(auth_error(AuthFault::InvalidIdentityFields))
    } else if nonce.len() != NONCE_SIZE || public_key.len() != 32 || binding.len() != 32 {
        Some(auth_error(AuthFault::InvalidFieldLength))
    } else if binding != expected_binding {
        Some(auth_error(AuthFault::ChannelBindingMismatch))
    } else if device_id_of(public_key) != device_id {
        Some(auth_error(AuthFault::UnderivedDeviceId))
    } else {
        None
    }
}

fn names_are_plain(device_name: &str, agent_version: &str, features: &[String]) -> (plain: bool)
    ensures
        plain == has_plain_names(device_name@, agent_version@, features@),
{
    if device_name.is_empty() || device_name.as_bytes().len() > MAX_IDENTITY_TEXT
        || agent_version.as_bytes().len() > MAX_IDENTITY_TEXT || features.len() > MAX_FEATURES {
        return false;
    }
    let mut i: usize = 0;
    while i < features.len()
        invariant
            i <= features.len(),
            forall|k: int|
                0 <= k < i ==> encode_utf8((#[trigger] features@[k])@).len() <= MAX_IDENTITY_TEXT,
        decreases features.len() - i,
    {
        if features[i].as_str().as_bytes().len() > MAX_IDENTITY_TEXT {
            assert(encode_utf8(features@[i as int]@).len() > MAX_IDENTITY_TEXT);
            return false;
        }
        i += 1;
    }
    true
}

/// Accepts the fields of a handshake and hands out the public key.
pub fn validate_handshake_fields(
    protocol_version: u16,
    device_id: Uuid,
    device_name: &str,
    agent_version: &str,
    features: &[String],
    nonce: &[u8],
    public_key: &[u8],
    binding: &[u8],
    expected_binding: &[u8; 32],
) -> (result: Result<[u8; 32], TransferError>)
    ensures
        ({
            let fault = fields_fault(
                protocol_version,
                device_id,
                has_plain_names(device_name@, agent_version@, features@),
                nonce@,
                public_key@,
                binding@,
                expected_binding@,
            );
            match result {
                Ok(key) => fault is None && key@ == public_key@,
                Err(error) => fault == Some(error),
            }
        }),
{
    if protocol_version != PROTOCOL_VERSION {
        return Err(
            TransferError::ProtocolVersionMismatch {
                expected: PROTOCOL_VERSION,
                received: protocol_version,
            },
        );
    }
    if !names_are_plain(device_name, agent_version, features) {
        return Err(TransferError::Authentication(AuthFault::InvalidIdentityFields));
    }
    if nonce.len() != NONCE_SIZE || public_key.len() != 32 || binding.len() != 32 {
        return Err(TransferError::Authentication(AuthFault::InvalidFieldLength));
    }
    if !same_bytes(binding, expected_binding) {
        return Err(TransferError::Authentication(AuthFault::ChannelBindingMismatch));
    }
    let key = match array_32(public_key) {
        Ok(key) => key,
        Err(error) => {
            return Err(error);
        },
    };
    if device_id_from_public_key(&key) != device_id {
        return Err(TransferError::Authentication(AuthFault::UnderivedDeviceId));
    }
    Ok(key)
}

/// Why a client's message is not accepted, if it is not.
pub open spec fn client_fault(handshake: ClientHandshake, expected_binding: Seq<u8>) -> Option<
    TransferError,
> {
    match fields_fault(
        handshake.protocol_version,
        handshake.device_id,
        has_plain_names(handshake.device_name@, handshake.agent_version@, handshake.features@),
        handshake.nonce@,
        handshake.public_key@,
        handshake.tls_certificate_binding@,
        expected_binding,
    ) {
        Some(error) => Some(error),
        None => signature_fault(
            handshake.device_id,
            handshake.public_key@,
            handshake.signature@,
            client_transcript_of(handshake),
        ),
    }
}

/// Why a server's answer is not accepted, if it is not.
pub open spec fn server_fault(
    client: ClientHandshake,
    handshake: ServerHandshake,
    expected_binding: Seq<u8>,
) -> Option<TransferError> {
    match fields_fault(
        handshake.protocol_version,
        handshake.device_id,
        has_plain_names(handshake.device_name@, handshake.agent_version@, handshake.features@),
        handshake.nonce@,
        handshake.public_key@,
        handshake.tls_certificate_binding@,
        expected_binding,
    ) {
        Some(error) => Some(error),
        None => signature_fault(
            handshake.device_id,
            handshake.public_key@,
            handshake.signature@,
            server_transcript_of(client, handshake),
        ),
    }
}

/// Accepts a client's message over a connection with the given certificate, and
/// hands out the client's public key.
pub fn validate_client_handshake(handshake: &ClientHandshake, expected_binding: &[u8; 32]) -> (
    result: Result<[u8; 32], TransferError>)
    ensures
        match result {
            Ok(key) => client_fault(*handshake, expected_binding@) is None && key@
                == handshake.public_key@,
            Err(error) => client_fault(*handshake, expected_binding@) == Some(error),
        },
{
    let key = match validate_handshake_fields(
        handshake.protocol_version,
        handshake.device_id,
        handshake.device_name.as_str(),
        handshake.agent_version.as_str(),
        &handshake.features,
        &handshake.nonce,
        &handshake.public_key,
        &handshake.tls_certificate_binding,
        expected_binding,
    ) {
        Ok(key) => key,
        Err(error) => {
            return Err(error);
        },
    };
    match verify_identity_signature(
        handshake.device_id,
        &key,
        &handshake.signature,
        &client_transcript(handshake),
    ) {
        Ok(_) => Ok(key),
        Err(error) => Err(error),
    }
}

/// Accepts a server's answer to a client over a connection with the given
/// certificate, and hands out the server's public key.
pub fn validate_server_handshake(
    handshake: &ServerHandshake,
    client: &ClientHandshake,
    expected_binding: &[u8; 32],
) -> (result: Result<[u8; 32], TransferError>)
    ensures
        match result {
            Ok(key) => server_fault(*client, *handshake, expected_binding@) is None && key@
                == handshake.public_key@,
            Err(error) => server_fault(*client, *handshake, expected_binding@) == Some(error),
        },
{
    let key = match validate_handshake_fields(
        handshake.protocol_version,
        handshake.device_id,
        handshake.device_name.as_str(),
        handshake.agent_version.as_str(),
        &handshake.features,
        &handshake.nonce,
        &handshake.public_key,
        &handshake.tls_certificate_binding,
        expected_binding,
    ) {
        Ok(key) => key,
        Err(error) => {
            return Err(error);
        },
    };
    match verify_identity_signature(
        handshake.device_id,
        &key,
        &handshake.signature,
        &server_transcript(client, handshake),
    ) {
        Ok(_) => Ok(key),
        Err(error) => Err(error),
    }
}

/// The machine-readable reason for which a handshake is rejected.
pub open spec fn reason_for(error: TransferError) -> RejectionReason {
    match error {
        TransferError::ProtocolVersionMismatch { expected, received } =>
            RejectionReason::ProtocolVersionMismatch { expected, received },
        TransferError::Authentication(AuthFault::ChannelBindingMismatch) =>
            RejectionReason::TlsCertificateBindingMismatch,
        TransferError::Authentication(AuthFault::MalformedKey) => RejectionReason::InvalidSignature,
        TransferError::Authentication(AuthFault::MalformedSignature) =>
            RejectionReason::InvalidSignature,
        TransferError::Authentication(AuthFault::InvalidSignature { .. }) =>
            RejectionReason::InvalidSignature,
        TransferError::Authentication(_) => RejectionReason::InvalidPublicKey,
        _ => RejectionReason::MalformedHandshake,
    }
}

/// The reason that a rejected client is told.
pub fn rejection_reason(error: &TransferError) -> (reason: RejectionReason)
    ensures
        reason == reason_for(*error),
{
    match error {
        TransferError::ProtocolVersionMismatch { expected, received } =>
            RejectionReason::ProtocolVersionMismatch { expected: *expected, received: *received },
        TransferError::Authentication(AuthFault::ChannelBindingMismatch) =>
            RejectionReason::TlsCertificateBindingMismatch,
        TransferError::Authentication(AuthFault::MalformedKey) => RejectionReason::InvalidSignature,
        TransferError::Authentication(AuthFault::MalformedSignature) =>
            RejectionReason::InvalidSignature,
        TransferError::Authentication(AuthFault::InvalidSignature { .. }) =>
            RejectionReason::InvalidSignature,
        TransferError::Authentication(_) => RejectionReason::InvalidPublicKey,
        _ => RejectionReason::MalformedHandshake,
    }
}

/// What a client's message needs to be accepted: this version, a name that is not empty
/// and no text too long, a nonce, a key and a binding of thirty-two bytes, the binding of
/// this very connection, an identifier that derives from the key, and a signature of the
/// whole by that key.
pub proof fn law_which_clients_are_accepted(handshake: ClientHandshake, binding: Seq<u8>)
    ensures
        client_fault(handshake, binding) is None <==> {
            &&& handshake.protocol_version == 2
            &&& handshake.device_name@.len() > 0
            &&& encode_utf8(handshake.device_name@).len() <= 1024
            &&& encode_utf8(handshake.agent_version@).len() <= 1024
            &&& handshake.features@.len() <= 64
            &&& forall|i: int|
                0 <= i < handshake.features@.len() ==> encode_utf8(
                    (#[trigger] handshake.features@[i])@,
                ).len() <= 1024
            &&& handshake.nonce@.len() == 32
            &&& handshake.public_key@.len() == 32
            &&& handshake.tls_certificate_binding@.len() == 32
            &&& handshake.tls_certificate_binding@ == binding
            &&& device_id_of(handshake.public_key@) == handshake.device_id
            &&& ed25519_key_valid(handshake.public_key@)
            &&& handshake.signature@.len() == 64
            &&& ed25519_verified(
                handshake.public_key@,
                client_transcript_of(handshake),
                handshake.signature@,
            )
        },
{
}

/// The same of a server's answer, whose signature covers the client's message too.
pub proof fn law_which_servers_are_accepted(
    client: ClientHandshake,
    handshake: ServerHandshake,
    binding: Seq<u8>,
)
    ensures
        server_fault(client, handshake, binding) is None <==> {
            &&& handshake.protocol_version == 2
            &&& handshake.device_name@.len() > 0
            &&& encode_utf8(handshake.device_name@).len() <= 1024
            &&& encode_utf8(handshake.agent_version@).len() <= 1024
            &&& handshake.features@.len() <= 64
            &&& forall|i: int|
                0 <= i < handshake.features@.len() ==> encode_utf8(
                    (#[trigger] handshake.features@[i])@,
                ).len() <= 1024
            &&& handshake.nonce@.len() == 32
            &&& handshake.public_key@.len() == 32
            &&& handshake.tls_certificate_binding@.len() == 32
            &&& handshake.tls_certificate_binding@ == binding
            &&& device_id_of(handshake.public_key@) == handshake.device_id
            &&& ed25519_key_valid(handshake.public_key@)
            &&& handshake.signature@.len() == 64
            &&& ed25519_verified(
                handshake.public_key@,
                server_transcript_of(client, handshake),
                handshake.signature@,
            )
        },
{
}

/// A rejection says what was wrong: the version, the binding, the signature, else
/// something about the identity; what is no fault of the handshake counts as malformed.
pub proof fn law_rejections_say_why(error: TransferError)
    ensures
        reason_for(error) is ProtocolVersionMismatch <==> error is ProtocolVersionMismatch,
        error matches TransferError::ProtocolVersionMismatch { expected, received } ==> reason_for(
            error,
        )->expected == expected && reason_for(error)->received == received,
        error matches TransferError::Authentication(fault) ==> {
            &&& reason_for(error) is TlsCertificateBindingMismatch <==> fault is ChannelBindingMismatch
            &&& reason_for(error) is InvalidSignature <==> fault is MalformedKey
                || fault is MalformedSignature || fault is InvalidSignature
            &&& reason_for(error) is InvalidPublicKey <==> !(fault is ChannelBindingMismatch) && !(
            fault is MalformedKey) && !(fault is MalformedSignature) && !(fault is InvalidSignature)
        },
        !(error is Authentication) && !(error is ProtocolVersionMismatch) <==> reason_for(
            error,
        ) is MalformedHandshake,
{
}

} // verus!
