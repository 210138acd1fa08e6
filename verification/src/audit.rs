//! Immutable audit trail with cryptographic hash chaining.
//! Every decision, action and failure is logged with tamper evidence.

use vstd::prelude::*;

use crate::clock::{new_uuid_v4, spec_utc_text, utc_now, utc_text, Timestamp};
use crate::json::{json_text, spec_json_text, JsonModel, JsonValue};
use crate::text::owned;

verus! {

#[derive(Debug, Clone, Copy, PartialEq, Eq, Structural)]
pub enum Severity {
    Info,
    Warning,
    Critical,
}

#[derive(Debug)]
pub struct AuditEntry {
    pub id: String,
    pub timestamp: Timestamp,
    pub severity: Severity,
    pub action: String,
    pub detail: String,
    pub prev_hash: String,
    pub hash: String,
    pub data: Option<JsonValue>,
}

/// The mathematical value of an [`AuditEntry`].
pub struct AuditEntryView {
    pub id: Seq<char>,
    pub timestamp: Timestamp,
    pub severity: Severity,
    pub action: Seq<char>,
    pub detail: Seq<char>,
    pub prev_hash: Seq<char>,
    pub hash: Seq<char>,
    pub data: Option<JsonModel>,
}

pub open spec fn data_model(data: Option<JsonValue>) -> Option<JsonModel> {
    match data {
        Some(v) => Some(v@),
        None => None,
    }
}

impl View for AuditEntry {
    type V = AuditEntryView;

    open spec fn view(&self) -> AuditEntryView {
        AuditEntryView {
            id: self.id@,
            timestamp: self.timestamp,
            severity: self.severity,
            action: self.action@,
            detail: self.detail@,
            prev_hash: self.prev_hash@,
            hash: self.hash@,
            data: data_model(self.data),
        }
    }
}

// ── Hashing ──────────────────────────────────────────────

/// What SHA-256 gives for these bytes.
pub uninterp spec fn spec_sha256(data: Seq<u8>) -> Seq<u8>;

/// Calls `sha2::Sha256::digest`. The digest is named; what is stated
/// besides is its length, 32 bytes.
#[verifier::external_body]
fn sha256_digest(data: &[u8]) -> (r: Vec<u8>)
    ensures
        r@ == spec_sha256(data@),
        r@.len() == 32,
{
    <sha2::Sha256 as sha2::Digest>::digest(data).to_vec()
}

/// The lower-case hexadecimal digit for `d < 16`.
pub open spec fn hex_digit(d: nat) -> char {
    if d < 10 {
        crate::text::digit_char(d)
    } else if d == 10 { 'a' } else if d == 11 { 'b' } else if d == 12 { 'c' }
    else if d == 13 { 'd' } else if d == 14 { 'e' } else { 'f' }
}

/// Two lower-case hexadecimal digits per byte, high half first (as `{:x}`
/// prints a digest).
pub open spec fn hex_lower(bytes: Seq<u8>) -> Seq<char>
    decreases bytes.len(),
{
    if bytes.len() == 0 {
        Seq::empty()
    } else {
        let b = bytes.last();
        hex_lower(bytes.drop_last()) + seq![hex_digit((b / 16) as nat), hex_digit((b % 16) as nat)]
    }
}

fn hex_char(d: u8) -> (c: char)
    requires
        d < 16,
    ensures
        c == hex_digit(d as nat),
{
    if d == 0 { '0' } else if d == 1 { '1' } else if d == 2 { '2' } else if d == 3 { '3' }
    else if d == 4 { '4' } else if d == 5 { '5' } else if d == 6 { '6' } else if d == 7 { '7' }
    else if d == 8 { '8' } else if d == 9 { '9' } else if d == 10 { 'a' } else if d == 11 { 'b' }
    else if d == 12 { 'c' } else if d == 13 { 'd' } else if d == 14 { 'e' } else { 'f' }
}

fn to_hex(bytes: &Vec<u8>) -> (r: String)
    ensures
        r@ == hex_lower(bytes@),
{
    let mut out = String::new();
    let mut i: usize = 0;
    while i < bytes.len()
        invariant
            i <= bytes@.len(),
            out@ == hex_lower(bytes@.subrange(0, i as int)),
        decreases bytes@.len() - i,
    {
        let b = bytes[i];
        crate::text::push_char(&mut out, hex_char(b / 16));
        crate::text::push_char(&mut out, hex_char(b % 16));
        assert(bytes@.subrange(0, i + 1).drop_last() =~= bytes@.subrange(0, i as int));
        i = i + 1;
    }
    assert(bytes@.subrange(0, bytes@.len() as int) =~= bytes@);
    out
}

/// The SHA-256 digest, in lower-case hex, of the UTF-8 bytes of `text`.
pub open spec fn sha256_hex(text: Seq<char>) -> Seq<char> {
    hex_lower(spec_sha256(vstd::utf8::encode_utf8(text)))
}

/// Hashes a string: the lower-case hex SHA-256 digest of its UTF-8 bytes.
pub fn sha256_hash(input: &str) -> (r: String)
    ensures
        r@ == sha256_hex(input@),
{
    let digest = sha256_digest(input.as_bytes());
    to_hex(&digest)
}

// ── The chain ────────────────────────────────────────────

/// The name of a severity, as the hash input writes it.
pub open spec fn severity_text(s: Severity) -> Seq<char> {
    match s {
        Severity::Info => "Info"@,
        Severity::Warning => "Warning"@,
        Severity::Critical => "Critical"@,
    }
}

/// The data of an entry as the hash input writes it: its compact JSON text,
/// or nothing when the entry carries no data.
pub open spec fn data_text(data: Option<JsonModel>) -> Seq<char> {
    match data {
        Some(m) => spec_json_text(m),
        None => Seq::empty(),
    }
}

/// The text an entry's hash is taken of: its id, time, severity, action,
/// detail, data and the previous hash, joined by `|`.
pub open spec fn hash_input(
    id: Seq<char>,
    time: Seq<char>,
    severity: Seq<char>,
    action: Seq<char>,
    detail: Seq<char>,
    data: Seq<char>,
    prev_hash: Seq<char>,
) -> Seq<char> {
    id + "|"@ + time + "|"@ + severity + "|"@ + action + "|"@ + detail + "|"@ + data + "|"@ + prev_hash
}

/// The hash that an entry should carry, where its time can be printed.
pub open spec fn expected_hash(e: AuditEntryView) -> Option<Seq<char>> {
    match spec_utc_text(e.timestamp.secs, e.timestamp.nanos) {
        Some(time) => Some(sha256_hex(hash_input(
            e.id, time, severity_text(e.severity), e.action, e.detail, data_text(e.data), e.prev_hash,
        ))),
        None => None,
    }
}

/// The entry carries the hash of its own contents.
pub open spec fn hash_matches(e: AuditEntryView) -> bool {
    expected_hash(e) == Some(e.hash)
}

/// Entry `i` points at the hash of entry `i - 1`.
pub open spec fn link_holds(es: Seq<AuditEntryView>, i: int) -> bool {
    es[i].prev_hash == es[i - 1].hash
}

/// The first index, from `i` on, whose link to its predecessor is broken.
pub open spec fn first_broken_link_from(es: Seq<AuditEntryView>, i: int) -> Option<int>
    decreases es.len() - i,
{
    if i < 1 || i >= es.len() {
        None
    } else if !link_holds(es, i) {
        Some(i)
    } else {
        first_broken_link_from(es, i + 1)
    }
}

/// The first index, from `i` on, whose hash does not match its contents.
pub open spec fn first_bad_hash_from(es: Seq<AuditEntryView>, i: int) -> Option<int>
    decreases es.len() - i,
{
    if i < 0 || i >= es.len() {
        None
    } else if !hash_matches(es[i]) {
        Some(i)
    } else {
        first_bad_hash_from(es, i + 1)
    }
}

/// What checking a chain answers: all links are checked first, then all
/// hashes; the first failure found is reported.
pub open spec fn chain_verdict(es: Seq<AuditEntryView>) -> (bool, Option<usize>) {
    match first_broken_link_from(es, 1) {
        Some(i) => (false, Some(i as usize)),
        None => match first_bad_hash_from(es, 0) {
            Some(i) => (false, Some(i as usize)),
            None => (true, None),
        },
    }
}

/// Every link holds and every entry carries the hash of its contents.
pub open spec fn chain_intact(es: Seq<AuditEntryView>) -> bool {
    &&& forall|i: int| 1 <= i < es.len() ==> #[trigger] link_holds(es, i)
    &&& forall|i: int| 0 <= i < es.len() ==> #[trigger] hash_matches(es[i])
}

/// The previous hash that the next entry of a chain records.
pub open spec fn next_prev_hash(es: Seq<AuditEntryView>) -> Seq<char> {
    if es.len() == 0 {
        "GENESIS"@
    } else {
        es.last().hash
    }
}

/// The views of a sequence of entries.
pub open spec fn entry_views(es: Seq<AuditEntry>) -> Seq<AuditEntryView> {
    es.map_values(|e: AuditEntry| e@)
}

proof fn lemma_first_broken_none(es: Seq<AuditEntryView>, i: int)
    requires
        1 <= i <= es.len(),
        forall|k: int| i <= k < es.len() ==> #[trigger] link_holds(es, k),
    ensures
        first_broken_link_from(es, i) is None,
    decreases es.len() - i,
{
    if i < es.len() {
        lemma_first_broken_none(es, i + 1);
    }
}

proof fn lemma_first_bad_none(es: Seq<AuditEntryView>, i: int)
    requires
        0 <= i <= es.len(),
        forall|k: int| i <= k < es.len() ==> #[trigger] hash_matches(es[k]),
    ensures
        first_bad_hash_from(es, i) is None,
    decreases es.len() - i,
{
    if i < es.len() {
        lemma_first_bad_none(es, i + 1);
    }
}

/// An intact chain passes the check.
pub proof fn lemma_intact_verdict(es: Seq<AuditEntryView>)
    requires
        chain_intact(es),
    ensures
        chain_verdict(es) == (true, Option::<usize>::None),
{
    if es.len() >= 1 {
        lemma_first_broken_none(es, 1);
    }
    lemma_first_bad_none(es, 0);
}

proof fn lemma_bad_hash_found(es: Seq<AuditEntryView>, i: int, k: int)
    requires
        0 <= i <= k < es.len(),
        !hash_matches(es[k]),
    ensures
        first_bad_hash_from(es, i) is Some,
    decreases k - i,
{
    if hash_matches(es[i]) {
        lemma_bad_hash_found(es, i + 1, k);
    }
}

proof fn lemma_broken_link_found(es: Seq<AuditEntryView>, i: int, k: int)
    requires
        1 <= i <= k < es.len(),
        !link_holds(es, k),
    ensures
        first_broken_link_from(es, i) is Some,
    decreases k - i,
{
    if link_holds(es, i) {
        lemma_broken_link_found(es, i + 1, k);
    }
}

/// Tampering with the contents of an entry (its id, time, severity, action,
/// detail, data or previous hash) without giving it the hash of its new contents
/// makes the chain check fail.
pub proof fn law_altered_entry_is_detected(es: Seq<AuditEntryView>, k: int, altered: AuditEntryView)
    requires
        0 <= k < es.len(),
        !hash_matches(altered),
    ensures
        chain_verdict(es.update(k, altered)).0 == false,
{
    let es2 = es.update(k, altered);
    if first_broken_link_from(es2, 1) is None {
        lemma_bad_hash_found(es2, 0, k);
    }
}

/// Re-hashing a tampered entry does not hide it: once its hash changes,
/// the next entry no longer points at it and the chain check fails.
pub proof fn law_rehashed_entry_breaks_next_link(es: Seq<AuditEntryView>, k: int, altered: AuditEntryView)
    requires
        chain_intact(es),
        0 <= k < es.len() - 1,
        altered.hash != es[k].hash,
    ensures
        chain_verdict(es.update(k, altered)).0 == false,
{
    let es2 = es.update(k, altered);
    assert(link_holds(es, k + 1));
    assert(!link_holds(es2, k + 1));
    lemma_broken_link_found(es2, 1, k + 1);
}

proof fn lemma_first_broken_at(es: Seq<AuditEntryView>, i: int, k: int)
    requires
        1 <= i <= k < es.len(),
        forall|m: int| i <= m < k ==> #[trigger] link_holds(es, m),
        !link_holds(es, k),
    ensures
        first_broken_link_from(es, i) == Some(k),
    decreases k - i,
{
    if i < k {
        assert(link_holds(es, i));
        lemma_first_broken_at(es, i + 1, k);
    }
}

proof fn lemma_first_bad_at(es: Seq<AuditEntryView>, i: int, k: int)
    requires
        0 <= i <= k < es.len(),
        forall|m: int| i <= m < k ==> #[trigger] hash_matches(es[m]),
        !hash_matches(es[k]),
    ensures
        first_bad_hash_from(es, i) == Some(k),
    decreases k - i,
{
    if i < k {
        assert(hash_matches(es[i]));
        lemma_first_bad_at(es, i + 1, k);
    }
}

/// The check names the tampered entry. In an intact chain, change one
/// entry `k` without re-hashing it:
/// - where its own hash and (past the first entry) its previous hash stay
///   as they were and it no longer carries the hash of its contents, the
///   check reports entry `k`;
/// - where its previous hash changes (past the first entry), the check
///   reports entry `k`, whose link is broken;
/// - where only its hash changes, the check reports the next entry, whose
///   link is broken, or entry `k` itself when it is the last one.
pub proof fn law_tampered_entry_is_located(es: Seq<AuditEntryView>, k: int, altered: AuditEntryView)
    requires
        chain_intact(es),
        0 <= k < es.len(),
    ensures
        altered.hash == es[k].hash && (k == 0 || altered.prev_hash == es[k].prev_hash) && !hash_matches(altered)
            ==> chain_verdict(es.update(k, altered)) == (false, Some(k as usize)),
        k >= 1 && altered.prev_hash != es[k].prev_hash && altered.hash == es[k].hash
            ==> chain_verdict(es.update(k, altered)) == (false, Some(k as usize)),
        altered == (AuditEntryView { hash: altered.hash, ..es[k] }) && altered.hash != es[k].hash && k + 1 < es.len()
            ==> chain_verdict(es.update(k, altered)) == (false, Some((k + 1) as usize)),
        altered == (AuditEntryView { hash: altered.hash, ..es[k] }) && altered.hash != es[k].hash && k + 1 == es.len()
            ==> chain_verdict(es.update(k, altered)) == (false, Some(k as usize)),
{
    let es2 = es.update(k, altered);
    assert forall|m: int| 1 <= m < es.len() && m != k && m != k + 1 implies link_holds(es2, m) by {
        assert(link_holds(es, m));
    }
    assert forall|m: int| 0 <= m < es.len() && m != k implies hash_matches(es2[m]) by {
        assert(hash_matches(es[m]));
    }
    if k + 1 < es.len() && altered.hash == es[k].hash {
        assert(link_holds(es, k + 1));
        assert(link_holds(es2, k + 1));
    }
    if altered.hash == es[k].hash && (k == 0 || altered.prev_hash == es[k].prev_hash) {
        if k >= 1 {
            assert(link_holds(es, k));
            assert(link_holds(es2, k));
        }
        assert forall|m: int| 1 <= m < es.len() implies #[trigger] link_holds(es2, m) by {
            if m != k && m != k + 1 {
                assert(link_holds(es2, m));
            }
        }
        lemma_first_broken_none(es2, 1);
        if !hash_matches(altered) {
            lemma_first_bad_at(es2, 0, k);
        }
    }
    if k >= 1 && altered.prev_hash != es[k].prev_hash && altered.hash == es[k].hash {
        assert(link_holds(es, k));
        assert(!link_holds(es2, k));
        lemma_first_broken_at(es2, 1, k);
    }
    if altered == (AuditEntryView { hash: altered.hash, ..es[k] }) && altered.hash != es[k].hash {
        assert(hash_matches(es[k]));
        assert(expected_hash(altered) == expected_hash(es[k]));
        assert(!hash_matches(altered));
        if k >= 1 {
            assert(link_holds(es, k));
            assert(link_holds(es2, k));
        }
        if k + 1 < es.len() {
            assert(link_holds(es, k + 1));
            assert(!link_holds(es2, k + 1));
            lemma_first_broken_at(es2, 1, k + 1);
        } else {
            assert forall|m: int| 1 <= m < es.len() implies #[trigger] link_holds(es2, m) by {
                if m != k {
                    assert(link_holds(es2, m));
                }
            }
            lemma_first_broken_none(es2, 1);
            lemma_first_bad_at(es2, 0, k);
        }
    }
}

proof fn lemma_middle_determined(a: Seq<char>, x: Seq<char>, y: Seq<char>, b: Seq<char>)
    requires
        a + x + b == a + y + b,
    ensures
        x == y,
{
    let s = a + x + b;
    assert(s.len() == (a + y + b).len());
    assert(x.len() == y.len());
    assert forall|i: int| 0 <= i < x.len() implies x[i] == y[i] by {
        assert(s[a.len() + i] == x[i]);
        assert((a + y + b)[a.len() + i] == y[i]);
    }
    assert(x =~= y);
}

proof fn lemma_hash_input_id(id: Seq<char>, time: Seq<char>, severity: Seq<char>, action: Seq<char>, detail: Seq<char>, data: Seq<char>, prev_hash: Seq<char>, other: Seq<char>)
    requires
        hash_input(other, time, severity, action, detail, data, prev_hash) == hash_input(id, time, severity, action, detail, data, prev_hash),
    ensures
        other == id,
{
    let bar = "|"@;
    let pre = Seq::<char>::empty();
    let post = bar + time + bar + severity + bar + action + bar + detail + bar + data + bar + prev_hash;
    assert(hash_input(other, time, severity, action, detail, data, prev_hash) =~= pre + other + post);
    assert(hash_input(id, time, severity, action, detail, data, prev_hash) =~= pre + id + post);
    lemma_middle_determined(pre, other, id, post);
}

proof fn lemma_hash_input_time(id: Seq<char>, time: Seq<char>, severity: Seq<char>, action: Seq<char>, detail: Seq<char>, data: Seq<char>, prev_hash: Seq<char>, other: Seq<char>)
    requires
        hash_input(id, other, severity, action, detail, data, prev_hash) == hash_input(id, time, severity, action, detail, data, prev_hash),
    ensures
        other == time,
{
    let bar = "|"@;
    let pre = id + bar;
    let post = bar + severity + bar + action + bar + detail + bar + data + bar + prev_hash;
    assert(hash_input(id, other, severity, action, detail, data, prev_hash) =~= pre + other + post);
    assert(hash_input(id, time, severity, action, detail, data, prev_hash) =~= pre + time + post);
    lemma_middle_determined(pre, other, time, post);
}

proof fn lemma_hash_input_severity(id: Seq<char>, time: Seq<char>, severity: Seq<char>, action: Seq<char>, detail: Seq<char>, data: Seq<char>, prev_hash: Seq<char>, other: Seq<char>)
    requires
        hash_input(id, time, other, action, detail, data, prev_hash) == hash_input(id, time, severity, action, detail, data, prev_hash),
    ensures
        other == severity,
{
    let bar = "|"@;
    let pre = id + bar + time + bar;
    let post = bar + action + bar + detail + bar + data + bar + prev_hash;
    assert(hash_input(id, time, other, action, detail, data, prev_hash) =~= pre + other + post);
    assert(hash_input(id, time, severity, action, detail, data, prev_hash) =~= pre + severity + post);
    lemma_middle_determined(pre, other, severity, post);
}

proof fn lemma_hash_input_action(id: Seq<char>, time: Seq<char>, severity: Seq<char>, action: Seq<char>, detail: Seq<char>, data: Seq<char>, prev_hash: Seq<char>, other: Seq<char>)
    requires
        hash_input(id, time, severity, other, detail, data, prev_hash) == hash_input(id, time, severity, action, detail, data, prev_hash),
    ensures
        other == action,
{
    let bar = "|"@;
    let pre = id + bar + time + bar + severity + bar;
    let post = bar + detail + bar + data + bar + prev_hash;
    assert(hash_input(id, time, severity, other, detail, data, prev_hash) =~= pre + other + post);
    assert(hash_input(id, time, severity, action, detail, data, prev_hash) =~= pre + action + post);
    lemma_middle_determined(pre, other, action, post);
}

proof fn lemma_hash_input_detail(id: Seq<char>, time: Seq<char>, severity: Seq<char>, action: Seq<char>, detail: Seq<char>, data: Seq<char>, prev_hash: Seq<char>, other: Seq<char>)
    requires
        hash_input(id, time, severity, action, other, data, prev_hash) == hash_input(id, time, severity, action, detail, data, prev_hash),
    ensures
        other == detail,
{
    let bar = "|"@;
    let pre = id + bar + time + bar + severity + bar + action + bar;
    let post = bar + data + bar + prev_hash;
    assert(hash_input(id, time, severity, action, other, data, prev_hash) =~= pre + other + post);
    assert(hash_input(id, time, severity, action, detail, data, prev_hash) =~= pre + detail + post);
    lemma_middle_determined(pre, other, detail, post);
}

proof fn lemma_hash_input_data(id: Seq<char>, time: Seq<char>, severity: Seq<char>, action: Seq<char>, detail: Seq<char>, data: Seq<char>, prev_hash: Seq<char>, other: Seq<char>)
    requires
        hash_input(id, time, severity, action, detail, other, prev_hash) == hash_input(id, time, severity, action, detail, data, prev_hash),
    ensures
        other == data,
{
    let bar = "|"@;
    let pre = id + bar + time + bar + severity + bar + action + bar + detail + bar;
    let post = bar + prev_hash;
    assert(hash_input(id, time, severity, action, detail, other, prev_hash) =~= pre + other + post);
    assert(hash_input(id, time, severity, action, detail, data, prev_hash) =~= pre + data + post);
    lemma_middle_determined(pre, other, data, post);
}

proof fn lemma_hash_input_prev_hash(id: Seq<char>, time: Seq<char>, severity: Seq<char>, action: Seq<char>, detail: Seq<char>, data: Seq<char>, prev_hash: Seq<char>, other: Seq<char>)
    requires
        hash_input(id, time, severity, action, detail, data, other) == hash_input(id, time, severity, action, detail, data, prev_hash),
    ensures
        other == prev_hash,
{
    let bar = "|"@;
    let pre = id + bar + time + bar + severity + bar + action + bar + detail + bar + data + bar;
    let post = Seq::<char>::empty();
    assert(hash_input(id, time, severity, action, detail, data, other) =~= pre + other + post);
    assert(hash_input(id, time, severity, action, detail, data, prev_hash) =~= pre + prev_hash + post);
    lemma_middle_determined(pre, other, prev_hash, post);
}

/// The text that is hashed determines each field it is made of: changing
/// any one of id, time, severity, action, detail, data and previous hash,
/// the others kept, changes the text.
pub proof fn law_hash_input_determines_each_field(
    id: Seq<char>,
    time: Seq<char>,
    severity: Seq<char>,
    action: Seq<char>,
    detail: Seq<char>,
    data: Seq<char>,
    prev_hash: Seq<char>,
    other: Seq<char>,
)
    ensures
        hash_input(other, time, severity, action, detail, data, prev_hash)
            == hash_input(id, time, severity, action, detail, data, prev_hash) ==> other == id,
        hash_input(id, other, severity, action, detail, data, prev_hash)
            == hash_input(id, time, severity, action, detail, data, prev_hash) ==> other == time,
        hash_input(id, time, other, action, detail, data, prev_hash)
            == hash_input(id, time, severity, action, detail, data, prev_hash) ==> other == severity,
        hash_input(id, time, severity, other, detail, data, prev_hash)
            == hash_input(id, time, severity, action, detail, data, prev_hash) ==> other == action,
        hash_input(id, time, severity, action, other, data, prev_hash)
            == hash_input(id, time, severity, action, detail, data, prev_hash) ==> other == detail,
        hash_input(id, time, severity, action, detail, other, prev_hash)
            == hash_input(id, time, severity, action, detail, data, prev_hash) ==> other == data,
        hash_input(id, time, severity, action, detail, data, other)
            == hash_input(id, time, severity, action, detail, data, prev_hash) ==> other == prev_hash,
{
    if hash_input(other, time, severity, action, detail, data, prev_hash) == hash_input(id, time, severity, action, detail, data, prev_hash) {
        lemma_hash_input_id(id, time, severity, action, detail, data, prev_hash, other);
    }
    if hash_input(id, other, severity, action, detail, data, prev_hash) == hash_input(id, time, severity, action, detail, data, prev_hash) {
        lemma_hash_input_time(id, time, severity, action, detail, data, prev_hash, other);
    }
    if hash_input(id, time, other, action, detail, data, prev_hash) == hash_input(id, time, severity, action, detail, data, prev_hash) {
        lemma_hash_input_severity(id, time, severity, action, detail, data, prev_hash, other);
    }
    if hash_input(id, time, severity, other, detail, data, prev_hash) == hash_input(id, time, severity, action, detail, data, prev_hash) {
        lemma_hash_input_action(id, time, severity, action, detail, data, prev_hash, other);
    }
    if hash_input(id, time, severity, action, other, data, prev_hash) == hash_input(id, time, severity, action, detail, data, prev_hash) {
        lemma_hash_input_detail(id, time, severity, action, detail, data, prev_hash, other);
    }
    if hash_input(id, time, severity, action, detail, other, prev_hash) == hash_input(id, time, severity, action, detail, data, prev_hash) {
        lemma_hash_input_data(id, time, severity, action, detail, data, prev_hash, other);
    }
    if hash_input(id, time, severity, action, detail, data, other) == hash_input(id, time, severity, action, detail, data, prev_hash) {
        lemma_hash_input_prev_hash(id, time, severity, action, detail, data, prev_hash, other);
    }
}

/// Each severity is written with a name of its own.
pub proof fn law_severity_text_distinct(a: Severity, b: Severity)
    ensures
        severity_text(a) == severity_text(b) ==> a == b,
{
    reveal_strlit("Info");
    reveal_strlit("Warning");
    reveal_strlit("Critical");
    assert("Info"@.len() == 4);
    assert("Warning"@.len() == 7);
    assert("Critical"@.len() == 8);
}

/// Back-dating an entry is detected. In an intact chain, give entry `k`
/// another printable time whose text differs, keeping every other field and
/// its hash: the check reports entry `k`, unless SHA-256 gives two different
/// hashed texts the same digest.
pub proof fn law_backdated_entry_is_located(es: Seq<AuditEntryView>, k: int, t: Timestamp)
    requires
        chain_intact(es),
        0 <= k < es.len(),
        spec_utc_text(t.secs, t.nanos) is Some,
        spec_utc_text(t.secs, t.nanos) != spec_utc_text(es[k].timestamp.secs, es[k].timestamp.nanos),
    ensures
        ({
            let e = es[k];
            let new_time = spec_utc_text(t.secs, t.nanos).unwrap();
            let old_time = spec_utc_text(e.timestamp.secs, e.timestamp.nanos).unwrap();
            let new_input = hash_input(e.id, new_time, severity_text(e.severity), e.action, e.detail, data_text(e.data), e.prev_hash);
            let old_input = hash_input(e.id, old_time, severity_text(e.severity), e.action, e.detail, data_text(e.data), e.prev_hash);
            ||| chain_verdict(es.update(k, AuditEntryView { timestamp: t, ..e })) == (false, Some(k as usize))
            ||| (new_input != old_input && sha256_hex(new_input) == sha256_hex(old_input))
        }),
{
    let e = es[k];
    let altered = AuditEntryView { timestamp: t, ..e };
    assert(hash_matches(e));
    let new_time = spec_utc_text(t.secs, t.nanos).unwrap();
    let old_time = spec_utc_text(e.timestamp.secs, e.timestamp.nanos).unwrap();
    law_hash_input_determines_each_field(
        e.id, old_time, severity_text(e.severity), e.action, e.detail, data_text(e.data), e.prev_hash, new_time,
    );
    law_tampered_entry_is_located(es, k, altered);
}

/// Checks a sequence of entries: every entry must point at its
/// predecessor's hash, and every entry must carry the hash of its own
/// contents. Gives the index of the first failure found.
pub fn verify_entries(entries: &[AuditEntry]) -> (r: (bool, Option<usize>))
    ensures
        r == chain_verdict(entry_views(entries@)),
{
    let ghost es = entry_views(entries@);
    let n = entries.len();
    let mut i: usize = 1;
    while i < n
        invariant
            n == entries@.len(),
            es == entry_views(entries@),
            1 <= i,
            first_broken_link_from(es, 1) == first_broken_link_from(es, i as int),
        decreases n - i,
    {
        if !entries[i].prev_hash.eq(&entries[i - 1].hash) {
            return (false, Some(i));
        }
        i = i + 1;
    }
    let mut j: usize = 0;
    while j < n
        invariant
            n == entries@.len(),
            es == entry_views(entries@),
            first_broken_link_from(es, 1) is None,
            first_bad_hash_from(es, 0) == first_bad_hash_from(es, j as int),
        decreases n - j,
    {
        let e = &entries[j];
        assert(es[j as int] == e@);
        let ok = match utc_text(&e.timestamp) {
            Some(time) => {
                let data = data_json(&e.data);
                let input = hash_text(&e.id, &time, severity_label(e.severity), &e.action, &e.detail, &data, &e.prev_hash);
                let expected = sha256_hash(input.as_str());
                e.hash.eq(&expected)
            },
            None => false,
        };
        if !ok {
            return (false, Some(j));
        }
        j = j + 1;
    }
    (true, None)
}

fn severity_label(s: Severity) -> (r: &'static str)
    ensures
        r@ == severity_text(s),
{
    match s {
        Severity::Info => "Info",
        Severity::Warning => "Warning",
        Severity::Critical => "Critical",
    }
}

fn data_json(data: &Option<JsonValue>) -> (r: String)
    ensures
        r@ == data_text(data_model(*data)),
{
    match data {
        Some(v) => json_text(v),
        None => String::new(),
    }
}

fn hash_text(
    id: &String,
    time: &String,
    severity: &str,
    action: &String,
    detail: &String,
    data: &String,
    prev_hash: &String,
) -> (r: String)
    ensures
        r@ == hash_input(id@, time@, severity@, action@, detail@, data@, prev_hash@),
{
    let mut s = id.clone();
    s.append("|");
    s.append(time.as_str());
    s.append("|");
    s.append(severity);
    s.append("|");
    s.append(action.as_str());
    s.append("|");
    s.append(detail.as_str());
    s.append("|");
    s.append(data.as_str());
    s.append("|");
    s.append(prev_hash.as_str());
    s
}

/// `after` is `before` with one more entry, which records this severity,
/// action, detail and data and is chained to `before`.
pub open spec fn appended(
    before: Seq<AuditEntryView>,
    after: Seq<AuditEntryView>,
    severity: Severity,
    action: Seq<char>,
    detail: Seq<char>,
    data: Option<JsonModel>,
) -> bool {
    &&& after.len() == before.len() + 1
    &&& after.drop_last() == before
    &&& after.last().severity == severity
    &&& after.last().action == action
    &&& after.last().detail == detail
    &&& after.last().data == data
    &&& after.last().prev_hash == next_prev_hash(before)
    &&& hash_matches(after.last())
}

/// A hash-chained, append-only log of audit entries.
pub struct AuditLog {
    entries: Vec<AuditEntry>,
}

impl AuditLog {
    #[verifier::type_invariant]
    spec fn chained(&self) -> bool {
        &&& chain_intact(entry_views(self.entries@))
        &&& self.entries@.len() > 0 ==> self.entries@[0].prev_hash@ == "GENESIS"@
    }

    /// The entries logged so far, oldest first.
    pub closed spec fn view(&self) -> Seq<AuditEntryView> {
        entry_views(self.entries@)
    }

    pub fn new() -> (log: Self)
        ensures
            log.view() == Seq::<AuditEntryView>::empty(),
    {
        let log = AuditLog { entries: Vec::new() };
        assert(log.view() =~= Seq::<AuditEntryView>::empty());
        log
    }

    /// Appends an entry chained to the last one and returns its id.
    pub fn log(&mut self, severity: Severity, action: &str, detail: &str, data: Option<JsonValue>) -> (id: String)
        ensures
            appended(old(self).view(), final(self).view(), severity, action@, detail@, data_model(data)),
            ({
                final(self).view().last().id == id@
            }),
            crate::clock::is_uuid_v4_text(id@),
    {
        proof { use_type_invariant(&*self); }
        let ghost before = self.view();
        let n = self.entries.len();
        let prev_hash = if n == 0 {
            owned("GENESIS")
        } else {
            self.entries[n - 1].hash.clone()
        };
        let id = new_uuid_v4();
        let timestamp = utc_now();
        let time = match utc_text(&timestamp) {
            Some(t) => t,
            None => String::new(),
        };
        let data_str = data_json(&data);
        let input = hash_text(&id, &time, severity_label(severity), &owned(action), &owned(detail), &data_str, &prev_hash);
        let hash = sha256_hash(input.as_str());
        let entry = AuditEntry {
            id: id.clone(),
            timestamp,
            severity,
            action: owned(action),
            detail: owned(detail),
            prev_hash,
            hash,
            data,
        };
        let ghost ev = entry@;
        assert(hash_matches(ev));
        let mut entries: Vec<AuditEntry> = Vec::new();
        std::mem::swap(&mut entries, &mut self.entries);
        entries.push(entry);
        proof {
            let after = before.push(ev);
            assert(entry_views(entries@) =~= after);
            assert(after.drop_last() =~= before);
            assert forall|i: int| 1 <= i < after.len() implies #[trigger] link_holds(after, i) by {
                if i < before.len() {
                    assert(link_holds(before, i));
                }
            }
            assert forall|i: int| 0 <= i < after.len() implies #[trigger] hash_matches(after[i]) by {
                if i < before.len() {
                    assert(hash_matches(before[i]));
                }
            }
            if before.len() > 0 {
                assert(after[0] == before[0]);
            }
        }
        self.entries = entries;
        id
    }

    /// Copies of the entries logged so far, oldest first.
    pub fn entries(&self) -> (r: Vec<AuditEntry>)
        ensures
            entry_views(r@) == self.view(),
    {
        let mut out: Vec<AuditEntry> = Vec::new();
        let mut i: usize = 0;
        while i < self.entries.len()
            invariant
                i <= self.entries@.len(),
                out@.len() == i,
                entry_views(out@) == entry_views(self.entries@).subrange(0, i as int),
            decreases self.entries@.len() - i,
        {
            let e = &self.entries[i];
            let data = match &e.data {
                Some(v) => Some(v.duplicate()),
                None => None,
            };
            let copy = AuditEntry {
                id: e.id.clone(),
                timestamp: e.timestamp,
                severity: e.severity,
                action: e.action.clone(),
                detail: e.detail.clone(),
                prev_hash: e.prev_hash.clone(),
                hash: e.hash.clone(),
                data,
            };
            assert(copy@ == e@);
            let ghost before = out@;
            out.push(copy);
            proof {
                let lhs = entry_views(out@);
                let rhs = entry_views(self.entries@).subrange(0, i + 1);
                assert forall|k: int| 0 <= k < i + 1 implies lhs[k] == rhs[k] by {
                    if k < i {
                        assert(out@[k] == before[k]);
                        assert(entry_views(before)[k] == entry_views(self.entries@).subrange(0, i as int)[k]);
                    }
                }
                assert(lhs =~= rhs);
            }
            i = i + 1;
        }
        assert(entry_views(self.entries@).subrange(0, i as int) =~= entry_views(self.entries@));
        out
    }

    pub fn len(&self) -> (r: usize)
        ensures
            r == self.view().len(),
    {
        self.entries.len()
    }

    /// Checks the whole chain. A log built by [`AuditLog::log`] is always
    /// intact, so the check passes.
    pub fn verify_chain(&self) -> (r: (bool, Option<usize>))
        ensures
            r == chain_verdict(self.view()),
            r == (true, Option::<usize>::None),
    {
        proof {
            use_type_invariant(self);
            lemma_intact_verdict(self.view());
        }
        verify_entries(self.entries.as_slice())
    }
}

} // verus!
