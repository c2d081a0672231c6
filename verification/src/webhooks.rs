//! Webhooks of GitHub: their signatures, when one is taken in, and what it
//! changes.
use vstd::prelude::*;
use vstd::utf8::encode_utf8;

use crate::autoscaling::{
    compatible, scale_up_target, supports, target, the_first_compatible_provider_is_chosen,
};
use crate::clock::date_millis;
use crate::config::{or_default, str_option};
use crate::crypto::{hex_text, hmac_sha256, nibble};
use crate::error::{fails_as, ApiError, ErrorView};
use crate::numbers::{decimal_i64, signed_decimal};
use crate::payload::{
    array, bool_value, date_member, date_value, flag_member, get, given, i64_or, i64_value,
    integer_member, integer_or, list_member, member, nested_i64, nested_integer, nested_object,
    nested_string, nested_text, object_member, owned_string, string, string_or, text_member, Json,
    Member,
};
use crate::search::{
    contains_text, find_from, first_chars, first_position, lemma_first_position, occurs_at,
    split_once, strip_prefix, take_chars,
};
use crate::text::{
    chars_of, concat, concat3, concat4, hex_digit, same, string_range, text_option, texts,
};

verus! {

/// The largest payload that is taken in: 25 MB.
pub const MAX_WEBHOOK_BYTES: usize = 26_214_400;

// ---------------------------------------------------------------------------
// Signatures

/// The value of a hexadecimal digit.
pub open spec fn hex_value(c: char) -> u8 {
    if '0' <= c <= '9' {
        ((c as u8) - ('0' as u8)) as u8
    } else if 'a' <= c <= 'f' {
        ((c as u8) - ('a' as u8) + 10) as u8
    } else {
        ((c as u8) - ('A' as u8) + 10) as u8
    }
}

/// The bytes that pairs of hexadecimal digits stand for; nothing for any other
/// text.
pub open spec fn hex_bytes(text: Seq<char>) -> Option<Seq<u8>>
    decreases text.len(),
{
    if text.len() == 0 {
        Some(Seq::empty())
    } else if text.len() == 1 || !hex_digit(text[0]) || !hex_digit(text[1]) {
        None
    } else {
        match hex_bytes(text.skip(2)) {
            Some(rest) => Some(seq![(hex_value(text[0]) * 16 + hex_value(text[1])) as u8] + rest),
            None => None,
        }
    }
}

/// `hex::decode`: the bytes that pairs of hexadecimal digits, in either case,
/// stand for.
#[verifier::external_body]
fn decode_hex(text: &str) -> (r: Option<Vec<u8>>)
    ensures
        crate::crypto::bytes_option(r) == hex_bytes(text@),
{
    hex::decode(text).ok()
}

/// Reading back bytes that were written in hexadecimal gives those bytes.
pub proof fn hexadecimal_reads_back(bytes: Seq<u8>)
    ensures
        hex_bytes(hex_text(bytes)) == Some(bytes),
    decreases bytes.len(),
{
    if bytes.len() == 0 {
        assert(bytes =~= Seq::empty());
    } else {
        let text = hex_text(bytes);
        let rest = bytes.skip(1);
        hexadecimal_reads_back(rest);
        assert(text.skip(2) =~= hex_text(rest));
        let (high, low) = (bytes[0] / 16, bytes[0] % 16);
        assert(text[0] == nibble(high as int) && text[1] == nibble(low as int));
        assert(hex_digit(text[0]) && hex_value(text[0]) == high);
        assert(hex_digit(text[1]) && hex_value(text[1]) == low);
        assert(bytes =~= seq![bytes[0]] + rest);
    }
}

/// `hmac::Mac::verify_slice` of `hmac::Hmac<sha2::Sha256>`, whose key may have
/// any length: whether a code is the one of the message.
#[verifier::external_body]
fn hmac_verify(key: &[u8], message: &[u8], code: &[u8]) -> (r: bool)
    ensures
        r == (code@ == hmac_sha256(key@, message@)),
{
    let mut mac = <hmac::Hmac<sha2::Sha256> as hmac::Mac>::new_from_slice(key)
        .expect("a key may have any length");
    hmac::Mac::update(&mut mac, message);
    hmac::Mac::verify_slice(mac, code).is_ok()
}

/// The signature is that of the body under the secret: `sha256=` and the code in
/// hexadecimal.
pub open spec fn signed_with(body: Seq<u8>, signature: Seq<char>, secret: Seq<char>) -> bool {
    &&& "sha256="@.is_prefix_of(signature)
    &&& hex_bytes(signature.skip("sha256="@.len() as int)) == Some(
        hmac_sha256(encode_utf8(secret), body),
    )
}

/// Whether a signature is that of a body under a secret.
pub fn verify_signature_with_secret(body: &[u8], signature: &str, secret: &str) -> (r: bool)
    ensures
        r == signed_with(body@, signature@, secret@),
{
    match strip_prefix(signature, "sha256=") {
        None => false,
        Some(text) => {
            proof {
                assert(signature@.skip("sha256="@.len() as int) =~= text@);
                assert(signature@.take("sha256="@.len() as int) =~= "sha256="@);
            }
            match decode_hex(text.as_str()) {
                None => false,
                Some(supplied) => hmac_verify(secret.as_bytes(), body, supplied.as_slice()),
            }
        },
    }
}

/// Whether a delivery is signed: not without a secret or without a signature.
pub fn verify_signature(body: &[u8], signature: Option<&str>, secret: Option<&str>) -> (r: bool)
    ensures
        r == (signature is Some && secret is Some && signed_with(
            body@,
            signature->0@,
            secret->0@,
        )),
{
    match (secret, signature) {
        (Some(secret), Some(signature)) => verify_signature_with_secret(body, signature, secret),
        _ => false,
    }
}

/// A body with the code of its own bytes is accepted, and with no other code.
pub proof fn signatures_are_bound_to_the_body(body: Seq<u8>, text: Seq<char>, secret: Seq<char>)
    ensures
        signed_with(body, "sha256="@ + text, secret) <==> hex_bytes(text) == Some(
            hmac_sha256(encode_utf8(secret), body),
        ),
{
    let signature = "sha256="@ + text;
    assert(signature.skip("sha256="@.len() as int) =~= text);
    assert(signature.take("sha256="@.len() as int) =~= "sha256="@);
}

// ---------------------------------------------------------------------------
// Taking a delivery in

/// A payload of this length is too large.
pub open spec fn payload_too_large(length: nat) -> bool {
    length > MAX_WEBHOOK_BYTES
}

/// Refuses a payload that is too large.
pub fn check_webhook_size(length: usize) -> (r: Result<(), ApiError>)
    ensures
        fails_as(
            r,
            if payload_too_large(length as nat) {
                Some(ErrorView::PayloadTooLarge("Webhook payload exceeds 25 MB."@))
            } else {
                None
            },
        ),
{
    if length > MAX_WEBHOOK_BYTES {
        Err(ApiError::PayloadTooLarge("Webhook payload exceeds 25 MB.".to_owned()))
    } else {
        Ok(())
    }
}

/// The value of a header that a delivery must have.
pub fn required_header(value: Option<&str>, name: &str) -> (r: Result<String, ApiError>)
    ensures
        match value {
            Some(value) => r is Ok && r->Ok_0@ == value@,
            None => r is Err && r->Err_0@ == ErrorView::BadRequest(
                "Missing "@ + name@ + " header."@,
            ),
        },
{
    match value {
        Some(value) => Ok(value.to_owned()),
        None => Err(ApiError::BadRequest(concat3("Missing ", name, " header."))),
    }
}

/// What becomes of a delivery.
#[derive(Debug, Clone, Copy, PartialEq, Eq, Structural)]
pub enum DeliveryStep {
    Duplicate,
    Reject,
    Process,
}

/// What becomes of a delivery, by whether it is known already and whether its
/// signature is valid.
pub open spec fn step_for(newly_recorded: bool, signature_valid: bool) -> DeliveryStep {
    if !newly_recorded {
        DeliveryStep::Duplicate
    } else if !signature_valid {
        DeliveryStep::Reject
    } else {
        DeliveryStep::Process
    }
}

/// What becomes of a delivery: one that is known is not processed again, and one
/// without a valid signature is not processed at all.
pub fn delivery_step(newly_recorded: bool, signature_valid: bool) -> (r: DeliveryStep)
    ensures
        r == step_for(newly_recorded, signature_valid),
{
    if !newly_recorded {
        DeliveryStep::Duplicate
    } else if !signature_valid {
        DeliveryStep::Reject
    } else {
        DeliveryStep::Process
    }
}

/// How a delivery is answered: it is accepted, as one that was known already, or as
/// one whose processing failed, or as neither.
#[derive(Debug, Clone, Copy, PartialEq, Eq, Structural)]
pub struct DeliveryAnswer {
    pub duplicate: bool,
    pub failed: bool,
}

/// How a delivery is answered, and whether it is refused for its signature.
pub open spec fn answer_for(step: DeliveryStep, failed: bool) -> Option<DeliveryAnswer> {
    match step {
        DeliveryStep::Duplicate => Some(DeliveryAnswer { duplicate: true, failed: false }),
        DeliveryStep::Reject => None,
        DeliveryStep::Process => Some(DeliveryAnswer { duplicate: false, failed }),
    }
}

/// How a delivery is answered, by what became of it and whether processing it
/// failed. A failure is told to GitHub as accepted: the delivery is kept, and can be
/// processed again.
pub fn delivery_answer(step: DeliveryStep, failed: bool) -> (r: Result<DeliveryAnswer, ApiError>)
    ensures
        match answer_for(step, failed) {
            Some(answer) => r == Ok::<DeliveryAnswer, ApiError>(answer),
            None => r is Err && r->Err_0@ == ErrorView::Unauthorized,
        },
{
    match step {
        DeliveryStep::Duplicate => Ok(DeliveryAnswer { duplicate: true, failed: false }),
        DeliveryStep::Reject => Err(ApiError::Unauthorized),
        DeliveryStep::Process => Ok(DeliveryAnswer { duplicate: false, failed }),
    }
}

/// How the processing of a delivery is recorded.
#[derive(Debug)]
pub struct DeliveryRecord {
    pub status: &'static str,
    pub error: Option<String>,
}

/// The model of how the processing of a delivery is recorded.
pub struct DeliveryRecordView {
    pub status: Seq<char>,
    pub error: Option<Seq<char>>,
}

impl View for DeliveryRecord {
    type V = DeliveryRecordView;

    open spec fn view(&self) -> DeliveryRecordView {
        DeliveryRecordView { status: self.status@, error: text_option(self.error) }
    }
}

/// The record of a delivery that was refused.
pub open spec fn rejection() -> DeliveryRecordView {
    DeliveryRecordView {
        status: "rejected"@,
        error: Some("Invalid or unavailable webhook signature."@),
    }
}

/// The record of a delivery that was processed, for the message about what failed.
pub open spec fn processing(failure: Option<Seq<char>>) -> DeliveryRecordView {
    match failure {
        Some(message) => DeliveryRecordView {
            status: "failed"@,
            error: Some(first_chars(message, 2_000)),
        },
        None => DeliveryRecordView { status: "processed"@, error: None },
    }
}

/// The records of all deliveries after one more has come in, where a store keeps
/// the first record of each delivery. `failure` is the message about what fails if
/// the delivery is processed.
pub open spec fn after_delivery(
    records: Map<Seq<char>, DeliveryRecordView>,
    id: Seq<char>,
    signature_valid: bool,
    failure: Option<Seq<char>>,
) -> Map<Seq<char>, DeliveryRecordView> {
    match step_for(!records.contains_key(id), signature_valid) {
        DeliveryStep::Duplicate => records,
        DeliveryStep::Reject => records.insert(id, rejection()),
        DeliveryStep::Process => records.insert(id, processing(failure)),
    }
}

/// A delivery is processed once: when it comes in again, whatever its signature is
/// then, it is answered as a duplicate, it is not processed, and no record of any
/// delivery changes.
pub proof fn a_delivery_is_processed_once(
    records: Map<Seq<char>, DeliveryRecordView>,
    id: Seq<char>,
    valid_first: bool,
    valid_then: bool,
    failure_first: Option<Seq<char>>,
    failure_then: Option<Seq<char>>,
)
    ensures
        ({
            let kept = after_delivery(records, id, valid_first, failure_first);
            let step = step_for(!kept.contains_key(id), valid_then);
            &&& step == DeliveryStep::Duplicate
            &&& answer_for(step, failure_then is Some) == Some(
                DeliveryAnswer { duplicate: true, failed: false },
            )
            &&& after_delivery(kept, id, valid_then, failure_then) == kept
        }),
{
}

/// How a delivery that was refused is recorded.
pub fn rejected_record() -> (r: DeliveryRecord)
    ensures
        r@ == rejection(),
{
    DeliveryRecord {
        status: "rejected",
        error: Some("Invalid or unavailable webhook signature.".to_owned()),
    }
}

/// How the processing of a delivery is recorded, for the message about what
/// failed, if something did.
pub fn processing_record(failure: Option<&str>) -> (r: DeliveryRecord)
    ensures
        r@ == processing(str_option(failure)),
{
    match failure {
        Some(message) => DeliveryRecord {
            status: "failed",
            error: Some(take_chars(message, 2_000)),
        },
        None => DeliveryRecord { status: "processed", error: None },
    }
}

/// What is known of a delivery that is to be processed again.
#[derive(Debug)]
pub struct StoredDelivery {
    pub event: String,
    pub action: Option<String>,
    pub installation_id: Option<i64>,
    pub signature_valid: bool,
    pub payload: Option<String>,
}

/// Why a delivery is not processed again, if it is not: those who administer its
/// installation may ask for it, or, where it has none, those who administer the
/// system.
pub open spec fn retry_error(
    delivery: Option<StoredDelivery>,
    installation_admin: bool,
    system_admin: bool,
) -> Option<ErrorView> {
    match delivery {
        None => Some(
            ErrorView::NotFound("Webhook delivery does not exist or is not accessible."@),
        ),
        Some(delivery) => if !delivery.signature_valid {
            Some(ErrorView::BadRequest("Only verified webhook payloads can be retried."@))
        } else if delivery.installation_id is Some && !installation_admin {
            Some(ErrorView::Forbidden)
        } else if delivery.installation_id is None && !system_admin {
            Some(ErrorView::Forbidden)
        } else if delivery.payload is None {
            Some(ErrorView::BadRequest("Webhook payload is unavailable."@))
        } else {
            None
        },
    }
}

/// The delivery that is to be processed again, where that may be done.
pub fn accept_retry(
    delivery: Option<StoredDelivery>,
    installation_admin: bool,
    system_admin: bool,
) -> (r: Result<StoredDelivery, ApiError>)
    ensures
        match retry_error(delivery, installation_admin, system_admin) {
            Some(error) => r is Err && r->Err_0@ == error,
            None => r is Ok && delivery == Some(r->Ok_0),
        },
{
    match delivery {
        None => Err(
            ApiError::NotFound(
                "Webhook delivery does not exist or is not accessible.".to_owned(),
            ),
        ),
        Some(delivery) => {
            if !delivery.signature_valid {
                return Err(
                    ApiError::BadRequest(
                        "Only verified webhook payloads can be retried.".to_owned(),
                    ),
                );
            }
            let allowed: bool = if delivery.installation_id.is_some() {
                installation_admin
            } else {
                system_admin
            };
            if !allowed {
                return Err(ApiError::Forbidden);
            }
            if delivery.payload.is_none() {
                return Err(ApiError::BadRequest("Webhook payload is unavailable.".to_owned()));
            }
            Ok(delivery)
        },
    }
}

/// A delivery without a valid signature is never processed: not when it comes
/// in, and not again.
pub proof fn unsigned_deliveries_are_never_processed(
    delivery: StoredDelivery,
    installation_admin: bool,
    system_admin: bool,
)
    requires
        !delivery.signature_valid,
    ensures
        forall|newly_recorded: bool| #[trigger]
            step_for(newly_recorded, delivery.signature_valid) != DeliveryStep::Process,
        retry_error(Some(delivery), installation_admin, system_admin) is Some,
{
}

// ---------------------------------------------------------------------------
// Events

/// What an event is about.
#[derive(Debug, Clone, Copy, PartialEq, Eq, Structural)]
pub enum EventKind {
    Installation,
    InstallationRepositories,
    WorkflowRun,
    WorkflowJob,
    AuthorizationRevoked,
    Ignored,
}

/// What an event is about.
pub open spec fn event_kind(event: Seq<char>, action: Option<Seq<char>>) -> EventKind {
    if event == "installation"@ {
        EventKind::Installation
    } else if event == "installation_repositories"@ {
        EventKind::InstallationRepositories
    } else if event == "workflow_run"@ {
        EventKind::WorkflowRun
    } else if event == "workflow_job"@ {
        EventKind::WorkflowJob
    } else if event == "github_app_authorization"@ && action == Some("revoked"@) {
        EventKind::AuthorizationRevoked
    } else {
        EventKind::Ignored
    }
}

/// What an event is about.
pub fn classify_event(event: &str, action: Option<&str>) -> (r: EventKind)
    ensures
        r == event_kind(event@, str_option(action)),
{
    if same(event, "installation") {
        EventKind::Installation
    } else if same(event, "installation_repositories") {
        EventKind::InstallationRepositories
    } else if same(event, "workflow_run") {
        EventKind::WorkflowRun
    } else if same(event, "workflow_job") {
        EventKind::WorkflowJob
    } else if same(event, "github_app_authorization") {
        let revoked: bool = match action {
            Some(action) => same(action, "revoked"),
            None => false,
        };
        if revoked {
            EventKind::AuthorizationRevoked
        } else {
            EventKind::Ignored
        }
    } else {
        EventKind::Ignored
    }
}

/// What an event says of an installation.
#[derive(Debug)]
pub struct InstallationRecord<'a> {
    pub id: i64,
    pub account_id: i64,
    pub account_login: String,
    pub account_type: String,
    pub account_avatar_url: Option<String>,
    pub target_type: String,
    pub repository_selection: String,
    /// As they came.
    pub permissions: Option<&'a Json>,
    /// As they came.
    pub events: Option<&'a Json>,
    pub suspended_at: Option<i64>,
}

/// What is done about an installation.
#[derive(Debug)]
pub enum InstallationChange<'a> {
    Ignore,
    Suspend(i64),
    Keep(InstallationRecord<'a>),
}

/// The change is what an event says of an installation: one that was deleted is
/// suspended, and its pools are emptied; of another one with an account, the
/// account, the permissions, the events, and what it may reach are kept.
pub open spec fn installation_change(
    change: InstallationChange<'_>,
    action: Option<Seq<char>>,
    payload: Seq<Member>,
) -> bool {
    match object_member(payload, "installation"@) {
        None => change is Ignore,
        Some(installation) => match integer_member(installation, "id"@) {
            None => change is Ignore,
            Some(id) => if action == Some("deleted"@) {
                change == InstallationChange::Suspend(id)
            } else {
                match object_member(installation, "account"@) {
                    None => change is Ignore,
                    Some(account) => {
                        &&& change matches InstallationChange::Keep(record)
                        &&& record.id == id
                        &&& record.account_id == integer_or(account, "id"@, 0)
                        &&& record.account_login@ == or_default(
                            text_member(account, "login"@),
                            "unknown"@,
                        )
                        &&& record.account_type@ == or_default(
                            text_member(account, "type"@),
                            "User"@,
                        )
                        &&& text_option(record.account_avatar_url) == text_member(
                            account,
                            "avatar_url"@,
                        )
                        &&& record.target_type@ == or_default(
                            text_member(installation, "target_type"@),
                            "User"@,
                        )
                        &&& record.repository_selection@ == or_default(
                            text_member(installation, "repository_selection"@),
                            "selected"@,
                        )
                        &&& given(record.permissions) == member(installation, "permissions"@)
                        &&& given(record.events) == member(installation, "events"@)
                        &&& record.suspended_at == date_member(installation, "suspended_at"@)
                    },
                }
            },
        },
    }
}

/// What an event says of an installation.
pub fn process_installation<'a>(action: Option<&str>, payload: &'a [Member]) -> (r:
    InstallationChange<'a>)
    ensures
        installation_change(r, str_option(action), payload@),
{
    let installation: &'a [Member] = match nested_object(payload, "installation") {
        Some(found) => found,
        None => {
            return InstallationChange::Ignore;
        },
    };
    let id: i64 = match i64_value(installation, "id") {
        Some(id) => id,
        None => {
            return InstallationChange::Ignore;
        },
    };
    let deleted: bool = match action {
        Some(action) => same(action, "deleted"),
        None => false,
    };
    if deleted {
        return InstallationChange::Suspend(id);
    }
    match nested_object(installation, "account") {
        None => InstallationChange::Ignore,
        Some(account) => InstallationChange::Keep(
            InstallationRecord {
                id,
                account_id: i64_or(account, "id", 0),
                account_login: string_or(account, "login", "unknown"),
                account_type: string_or(account, "type", "User"),
                account_avatar_url: owned_string(account, "avatar_url"),
                target_type: string_or(installation, "target_type", "User"),
                repository_selection: string_or(installation, "repository_selection", "selected"),
                permissions: get(installation, "permissions"),
                events: get(installation, "events"),
                suspended_at: date_value(installation, "suspended_at"),
            },
        ),
    }
}

/// What an event says of a repository.
#[derive(Debug)]
pub struct RepositoryRecord {
    pub id: i64,
    pub owner: String,
    pub name: String,
    pub full_name: String,
    pub private: bool,
    pub default_branch: String,
    pub html_url: String,
}

/// The model of a repository's record.
pub struct RepositoryRecordView {
    pub id: i64,
    pub owner: Seq<char>,
    pub name: Seq<char>,
    pub full_name: Seq<char>,
    pub private: bool,
    pub default_branch: Seq<char>,
    pub html_url: Seq<char>,
}

impl View for RepositoryRecord {
    type V = RepositoryRecordView;

    open spec fn view(&self) -> RepositoryRecordView {
        RepositoryRecordView {
            id: self.id,
            owner: self.owner@,
            name: self.name@,
            full_name: self.full_name@,
            private: self.private,
            default_branch: self.default_branch@,
            html_url: self.html_url@,
        }
    }
}

/// The owner in the full name of a repository.
pub open spec fn owner_part(full_name: Seq<char>) -> Seq<char> {
    if full_name.contains('/') {
        full_name.take(first_position(full_name, '/'))
    } else {
        "unknown"@
    }
}

/// The name in the full name of a repository.
pub open spec fn name_part(full_name: Seq<char>) -> Seq<char> {
    if full_name.contains('/') {
        full_name.skip(first_position(full_name, '/') + 1)
    } else {
        full_name
    }
}

/// What an item of a list says of a repository, where it names one.
pub open spec fn repository_record(item: Json) -> Option<RepositoryRecordView> {
    match item {
        Json::Object(object) => {
            let id = integer_member(object@, "id"@);
            let full_name = text_member(object@, "full_name"@);
            if id is Some && full_name is Some {
                Some(
                    RepositoryRecordView {
                        id: id->0,
                        owner: owner_part(full_name->0),
                        name: name_part(full_name->0),
                        full_name: full_name->0,
                        private: flag_member(object@, "private"@),
                        default_branch: or_default(
                            text_member(object@, "default_branch"@),
                            "master"@,
                        ),
                        html_url: or_default(
                            text_member(object@, "html_url"@),
                            "https://github.com/"@ + full_name->0,
                        ),
                    },
                )
            } else {
                None
            }
        },
        _ => None,
    }
}

/// What the items of a list say of repositories.
pub open spec fn repository_records(items: Seq<Json>) -> Seq<RepositoryRecordView>
    decreases items.len(),
{
    if items.len() == 0 {
        Seq::empty()
    } else {
        let before = repository_records(items.drop_last());
        match repository_record(items.last()) {
            Some(record) => before.push(record),
            None => before,
        }
    }
}

/// The numbers of the repositories that the items of a list name.
pub open spec fn repository_ids(items: Seq<Json>) -> Seq<i64>
    decreases items.len(),
{
    if items.len() == 0 {
        Seq::empty()
    } else {
        let before = repository_ids(items.drop_last());
        match items.last() {
            Json::Object(object) => match integer_member(object@, "id"@) {
                Some(id) => before.push(id),
                None => before,
            },
            _ => before,
        }
    }
}

/// The models of a list of records.
pub open spec fn record_views(list: Seq<RepositoryRecord>) -> Seq<RepositoryRecordView> {
    list.map_values(|record: RepositoryRecord| record@)
}

/// What an event says of the repositories of an installation.
#[derive(Debug)]
pub struct RepositoryChanges {
    pub installation_id: i64,
    pub added: Vec<RepositoryRecord>,
    pub removed: Vec<i64>,
}

fn split_full_name(full_name: &str) -> (r: (String, String))
    ensures
        (r.0@, r.1@) == (owner_part(full_name@), name_part(full_name@)),
{
    match split_once(full_name, '/') {
        Some(parts) => {
            proof {
                let i = parts.0@.len() as int;
                assert(full_name@[i] == '/');
                assert forall|k: int| 0 <= k < i implies full_name@[k] != '/' by {
                    assert(parts.0@.contains(parts.0@[k]));
                }
                lemma_first_position(full_name@, '/', i);
                assert(full_name@.take(i) =~= parts.0@);
                assert(full_name@.skip(i + 1) =~= parts.1@);
            }
            parts
        },
        None => ("unknown".to_owned(), full_name.to_owned()),
    }
}

fn read_repository(item: &Json) -> (r: Option<RepositoryRecord>)
    ensures
        match r {
            Some(record) => repository_record(*item) == Some(record@),
            None => repository_record(*item) is None,
        },
{
    match item {
        Json::Object(members) => {
            let object: &[Member] = members.as_slice();
            match (i64_value(object, "id"), string(object, "full_name")) {
                (Some(id), Some(full_name)) => {
                    let parts: (String, String) = split_full_name(full_name);
                    let html_url: String = match string(object, "html_url") {
                        Some(url) => url.to_owned(),
                        None => concat("https://github.com/", full_name),
                    };
                    Some(
                        RepositoryRecord {
                            id,
                            owner: parts.0,
                            name: parts.1,
                            full_name: full_name.to_owned(),
                            private: bool_value(object, "private"),
                            default_branch: string_or(object, "default_branch", "master"),
                            html_url,
                        },
                    )
                },
                _ => None,
            }
        },
        _ => None,
    }
}

fn read_repositories(items: &[Json]) -> (r: Vec<RepositoryRecord>)
    ensures
        record_views(r@) == repository_records(items@),
{
    let mut out: Vec<RepositoryRecord> = Vec::new();
    let mut i: usize = 0;
    proof {
        assert(record_views(out@) =~= Seq::empty());
    }
    while i < items.len()
        invariant
            i <= items@.len(),
            record_views(out@) == repository_records(items@.take(i as int)),
        decreases items@.len() - i,
    {
        let ghost before = record_views(out@);
        proof {
            let next = items@.take(i + 1);
            assert(next.drop_last() =~= items@.take(i as int));
            assert(next.last() == items@[i as int]);
        }
        if let Some(record) = read_repository(&items[i]) {
            out.push(record);
            proof {
                assert(record_views(out@) =~= before.push(record@));
            }
        }
        i += 1;
    }
    proof {
        assert(items@.take(items@.len() as int) =~= items@);
    }
    out
}

fn read_repository_ids(items: &[Json]) -> (r: Vec<i64>)
    ensures
        r@ == repository_ids(items@),
{
    let mut out: Vec<i64> = Vec::new();
    let mut i: usize = 0;
    while i < items.len()
        invariant
            i <= items@.len(),
            out@ == repository_ids(items@.take(i as int)),
        decreases items@.len() - i,
    {
        proof {
            let next = items@.take(i + 1);
            assert(next.drop_last() =~= items@.take(i as int));
            assert(next.last() == items@[i as int]);
        }
        if let Json::Object(members) = &items[i] {
            if let Some(id) = i64_value(members.as_slice(), "id") {
                out.push(id);
            }
        }
        i += 1;
    }
    proof {
        assert(items@.take(items@.len() as int) =~= items@);
    }
    out
}

/// What an event says of the repositories of an installation.
pub fn process_installation_repositories(payload: &[Member]) -> (r: Option<RepositoryChanges>)
    ensures
        match nested_integer(payload@, "installation"@, "id"@) {
            None => r is None,
            Some(id) => {
                &&& r is Some
                &&& r->0.installation_id == id
                &&& record_views(r->0.added@) == repository_records(
                    list_member(payload@, "repositories_added"@),
                )
                &&& r->0.removed@ == repository_ids(list_member(payload@, "repositories_removed"@))
            },
        },
{
    let installation_id: i64 = match nested_i64(payload, "installation", "id") {
        Some(id) => id,
        None => {
            return None;
        },
    };
    let added: Vec<RepositoryRecord> = match array(payload, "repositories_added") {
        Some(items) => read_repositories(items),
        None => {
            let none: Vec<RepositoryRecord> = Vec::new();
            proof {
                assert(record_views(none@) =~= Seq::empty());
            }
            none
        },
    };
    let removed: Vec<i64> = match array(payload, "repositories_removed") {
        Some(items) => read_repository_ids(items),
        None => Vec::new(),
    };
    Some(RepositoryChanges { installation_id, added, removed })
}

// ---------------------------------------------------------------------------
// Runs and jobs

/// The error where a repository is not known yet.
pub open spec fn unsynced(repository_id: i64) -> ErrorView {
    ErrorView::Conflict(
        "Repository "@ + signed_decimal(repository_id as int) + " is not synced yet."@,
    )
}

/// Refuses what belongs to a repository that is not known yet.
pub fn require_repository(known: bool, repository_id: i64) -> (r: Result<(), ApiError>)
    ensures
        fails_as(
            r,
            if known {
                None
            } else {
                Some(unsynced(repository_id))
            },
        ),
{
    if known {
        Ok(())
    } else {
        Err(
            ApiError::Conflict(
                concat3("Repository ", decimal_i64(repository_id).as_str(), " is not synced yet."),
            ),
        )
    }
}

/// What an event says of a workflow run.
#[derive(Debug)]
pub struct RunRecord {
    pub id: i64,
    pub repository_id: i64,
    pub workflow_id: Option<i64>,
    pub workflow_name: String,
    pub run_number: i64,
    pub run_attempt: i64,
    pub event: String,
    pub status: String,
    pub conclusion: Option<String>,
    pub head_branch: Option<String>,
    pub head_sha: String,
    pub actor_login: Option<String>,
    pub html_url: String,
    pub started_at: Option<i64>,
    pub completed_at: Option<i64>,
    pub github_created_at: i64,
    pub github_updated_at: i64,
}

/// The instant that counts: the one that is known, or else another.
pub open spec fn instant_or(value: Option<i64>, fallback: i64) -> i64 {
    match value {
        Some(instant) => instant,
        None => fallback,
    }
}

/// An instant, or another where it is not known.
pub fn instant(value: Option<i64>, fallback: i64) -> (r: i64)
    ensures
        r == instant_or(value, fallback),
{
    match value {
        Some(instant) => instant,
        None => fallback,
    }
}

/// The record is what an event says of a workflow run.
pub open spec fn describes_run(
    record: RunRecord,
    run: Seq<Member>,
    id: i64,
    repository_id: i64,
    now: i64,
) -> bool {
    let status = or_default(text_member(run, "status"@), "queued"@);
    let updated = instant_or(date_member(run, "updated_at"@), now);
    &&& record.id == id
    &&& record.repository_id == repository_id
    &&& record.workflow_id == integer_member(run, "workflow_id"@)
    &&& record.workflow_name@ == match text_member(run, "name"@) {
        Some(name) => name,
        None => or_default(text_member(run, "display_title"@), "Workflow"@),
    }
    &&& record.run_number == integer_or(run, "run_number"@, 0)
    &&& record.run_attempt == integer_or(run, "run_attempt"@, 1)
    &&& record.event@ == or_default(text_member(run, "event"@), "unknown"@)
    &&& record.status@ == status
    &&& text_option(record.conclusion) == text_member(run, "conclusion"@)
    &&& text_option(record.head_branch) == text_member(run, "head_branch"@)
    &&& record.head_sha@ == or_default(text_member(run, "head_sha"@), "unknown"@)
    &&& text_option(record.actor_login) == nested_text(run, "actor"@, "login"@)
    &&& record.html_url@ == or_default(text_member(run, "html_url"@), ""@)
    &&& record.started_at == date_member(run, "run_started_at"@)
    &&& record.completed_at == if status == "completed"@ {
        Some(updated)
    } else {
        None
    }
    &&& record.github_created_at == instant_or(date_member(run, "created_at"@), now)
    &&& record.github_updated_at == updated
}

/// What an event says of a workflow run, where it names one and its repository.
pub fn process_workflow_run(payload: &[Member], now: i64) -> (r: Option<RunRecord>)
    ensures
        match object_member(payload@, "workflow_run"@) {
            None => r is None,
            Some(run) => {
                let id = integer_member(run, "id"@);
                let repository_id = nested_integer(payload@, "repository"@, "id"@);
                if id is Some && repository_id is Some {
                    r is Some && describes_run(r->0, run, id->0, repository_id->0, now)
                } else {
                    r is None
                }
            },
        },
{
    let run: &[Member] = match nested_object(payload, "workflow_run") {
        Some(run) => run,
        None => {
            return None;
        },
    };
    match (i64_value(run, "id"), nested_i64(payload, "repository", "id")) {
        (Some(id), Some(repository_id)) => {
            let status: String = string_or(run, "status", "queued");
            let updated_at: i64 = instant(date_value(run, "updated_at"), now);
            let completed_at: Option<i64> = if same(status.as_str(), "completed") {
                Some(updated_at)
            } else {
                None
            };
            let workflow_name: String = match string(run, "name") {
                Some(name) => name.to_owned(),
                None => string_or(run, "display_title", "Workflow"),
            };
            let actor_login: Option<String> = match nested_string(run, "actor", "login") {
                Some(login) => Some(login.to_owned()),
                None => None,
            };
            Some(
                RunRecord {
                    id,
                    repository_id,
                    workflow_id: i64_value(run, "workflow_id"),
                    workflow_name,
                    run_number: i64_or(run, "run_number", 0),
                    run_attempt: i64_or(run, "run_attempt", 1),
                    event: string_or(run, "event", "unknown"),
                    status,
                    conclusion: owned_string(run, "conclusion"),
                    head_branch: owned_string(run, "head_branch"),
                    head_sha: string_or(run, "head_sha", "unknown"),
                    actor_login,
                    html_url: string_or(run, "html_url", ""),
                    started_at: date_value(run, "run_started_at"),
                    completed_at,
                    github_created_at: instant(date_value(run, "created_at"), now),
                    github_updated_at: updated_at,
                },
            )
        },
        _ => None,
    }
}

/// What an event says of a workflow job.
#[derive(Debug)]
pub struct JobRecord {
    pub id: i64,
    pub run_id: i64,
    pub name: String,
    pub status: String,
    pub conclusion: Option<String>,
    pub runner_id: Option<i64>,
    pub runner_name: Option<String>,
    pub runner_group_id: Option<i64>,
    pub runner_group_name: Option<String>,
    pub html_url: String,
    pub started_at: Option<i64>,
    pub completed_at: Option<i64>,
    /// The texts among its labels.
    pub labels: Vec<String>,
    pub event: String,
    pub message: String,
}

/// The state of a job: the one that is named, or else the action of the event.
pub open spec fn job_status(job: Seq<Member>, action: Option<Seq<char>>) -> Seq<char> {
    match text_member(job, "status"@) {
        Some(status) => status,
        None => or_default(action, "queued"@),
    }
}

/// The texts among the items of a list.
pub open spec fn texts_among(items: Seq<Json>) -> Seq<Seq<char>>
    decreases items.len(),
{
    if items.len() == 0 {
        Seq::empty()
    } else {
        let before = texts_among(items.drop_last());
        match items.last() {
            Json::Text(text) => before.push(text@),
            _ => before,
        }
    }
}

fn read_texts(items: &[Json]) -> (r: Vec<String>)
    ensures
        texts(r@) == texts_among(items@),
{
    let mut out: Vec<String> = Vec::new();
    let mut i: usize = 0;
    proof {
        assert(texts(out@) =~= Seq::empty());
    }
    while i < items.len()
        invariant
            i <= items@.len(),
            texts(out@) == texts_among(items@.take(i as int)),
        decreases items@.len() - i,
    {
        let ghost before = texts(out@);
        proof {
            let next = items@.take(i + 1);
            assert(next.drop_last() =~= items@.take(i as int));
            assert(next.last() == items@[i as int]);
        }
        if let Json::Text(text) = &items[i] {
            out.push(text.clone());
            proof {
                assert(texts(out@) =~= before.push(text@));
            }
        }
        i += 1;
    }
    proof {
        assert(items@.take(items@.len() as int) =~= items@);
    }
    out
}

/// The record is what an event says of a workflow job.
pub open spec fn describes_job(
    record: JobRecord,
    job: Seq<Member>,
    action: Option<Seq<char>>,
    id: i64,
    run_id: i64,
) -> bool {
    let name = or_default(text_member(job, "name"@), "Job"@);
    let status = job_status(job, action);
    &&& record.id == id
    &&& record.run_id == run_id
    &&& record.name@ == name
    &&& record.status@ == status
    &&& text_option(record.conclusion) == text_member(job, "conclusion"@)
    &&& record.runner_id == integer_member(job, "runner_id"@)
    &&& text_option(record.runner_name) == text_member(job, "runner_name"@)
    &&& record.runner_group_id == integer_member(job, "runner_group_id"@)
    &&& text_option(record.runner_group_name) == text_member(job, "runner_group_name"@)
    &&& record.html_url@ == or_default(text_member(job, "html_url"@), ""@)
    &&& record.started_at == date_member(job, "started_at"@)
    &&& record.completed_at == date_member(job, "completed_at"@)
    &&& texts(record.labels@) == texts_among(list_member(job, "labels"@))
    &&& record.event@ == "Workflow job "@ + or_default(action, status)
    &&& record.message@ == name + " · run "@ + signed_decimal(run_id as int)
}

/// What an event says of a workflow job, where it names one and its run.
pub fn process_workflow_job(action: Option<&str>, payload: &[Member]) -> (r: Option<JobRecord>)
    ensures
        match object_member(payload@, "workflow_job"@) {
            None => r is None,
            Some(job) => {
                let id = integer_member(job, "id"@);
                let run_id = integer_member(job, "run_id"@);
                if id is Some && run_id is Some {
                    r is Some && describes_job(r->0, job, str_option(action), id->0, run_id->0)
                } else {
                    r is None
                }
            },
        },
{
    let job: &[Member] = match nested_object(payload, "workflow_job") {
        Some(job) => job,
        None => {
            return None;
        },
    };
    match (i64_value(job, "id"), i64_value(job, "run_id")) {
        (Some(id), Some(run_id)) => {
            let status: String = match string(job, "status") {
                Some(status) => status.to_owned(),
                None => match action {
                    Some(action) => action.to_owned(),
                    None => "queued".to_owned(),
                },
            };
            let event: String = match action {
                Some(action) => concat("Workflow job ", action),
                None => concat("Workflow job ", status.as_str()),
            };
            let name: String = string_or(job, "name", "Job");
            let message: String = concat3(
                name.as_str(),
                " · run ",
                decimal_i64(run_id).as_str(),
            );
            let labels: Vec<String> = match array(job, "labels") {
                Some(items) => read_texts(items),
                None => {
                    let none: Vec<String> = Vec::new();
                    proof {
                        assert(texts(none@) =~= Seq::empty());
                    }
                    none
                },
            };
            Some(
                JobRecord {
                    id,
                    run_id,
                    name,
                    status,
                    conclusion: owned_string(job, "conclusion"),
                    runner_id: i64_value(job, "runner_id"),
                    runner_name: owned_string(job, "runner_name"),
                    runner_group_id: i64_value(job, "runner_group_id"),
                    runner_group_name: owned_string(job, "runner_group_name"),
                    html_url: string_or(job, "html_url", ""),
                    started_at: date_value(job, "started_at"),
                    completed_at: date_value(job, "completed_at"),
                    labels,
                    event,
                    message,
                },
            )
        },
        _ => None,
    }
}

/// The labels of the job that an event is about, as they came; nothing where it
/// names none.
pub fn job_labels(payload: &[Member]) -> (r: Option<&Json>)
    ensures
        given(r) == match object_member(payload@, "workflow_job"@) {
            Some(job) => member(job, "labels"@),
            None => None,
        },
{
    match nested_object(payload, "workflow_job") {
        Some(job) => get(job, "labels"),
        None => None,
    }
}

/// What a job does to the runner that it runs on.
#[derive(Debug, Clone, Copy, PartialEq, Eq, Structural)]
pub enum RunnerEffect {
    Occupy,
    Free,
    Nothing,
}

/// What a job does to the runner that it runs on.
pub open spec fn effect_of(status: Seq<char>) -> RunnerEffect {
    if status == "in_progress"@ {
        RunnerEffect::Occupy
    } else if status == "completed"@ {
        RunnerEffect::Free
    } else {
        RunnerEffect::Nothing
    }
}

/// What a job does to the runner that it runs on: it occupies it while it is in
/// progress and frees it when it is completed.
pub fn runner_effect(status: &str) -> (r: RunnerEffect)
    ensures
        r == effect_of(status@),
{
    if same(status, "in_progress") {
        RunnerEffect::Occupy
    } else if same(status, "completed") {
        RunnerEffect::Free
    } else {
        RunnerEffect::Nothing
    }
}

/// The address of the run of a job, by the address of the job: what stands in
/// front of the first `/job/`.
pub open spec fn run_address(job_url: Seq<char>, address: Seq<char>) -> bool {
    if exists|i: int| #[trigger] occurs_at(job_url, "/job/"@, i) {
        exists|i: int| #[trigger]
            occurs_at(job_url, "/job/"@, i) && address == job_url.take(i) && forall|k: int|
                0 <= k < i ==> !#[trigger] occurs_at(job_url, "/job/"@, k)
    } else {
        address == job_url
    }
}

/// The address of the run of a job, by the address of the job.
pub fn run_url_of_job(job_url: &str) -> (r: String)
    ensures
        run_address(job_url@, r@),
{
    let a: Vec<char> = chars_of(job_url);
    let needle: Vec<char> = chars_of("/job/");
    match find_from(a.as_slice(), needle.as_slice(), 0) {
        Some(i) => {
            let out: String = string_range(a.as_slice(), 0, i);
            proof {
                assert(occurs_at(job_url@, "/job/"@, i as int));
                assert(out@ =~= job_url@.take(i as int));
            }
            out
        },
        None => {
            proof {
                assert forall|i: int| !#[trigger] occurs_at(job_url@, "/job/"@, i) by {
                    if i >= 0 {
                        assert(!occurs_at(a@, needle@, i));
                    }
                }
            }
            job_url.to_owned()
        },
    }
}

/// The run that stands for one that is not known yet is what the event says of
/// its job.
pub open spec fn describes_placeholder(
    record: RunRecord,
    payload: Seq<Member>,
    job: Seq<Member>,
    run_id: i64,
    repository_id: i64,
    now: i64,
) -> bool {
    &&& record.id == run_id
    &&& record.repository_id == repository_id
    &&& record.workflow_id is None
    &&& record.workflow_name@ == or_default(text_member(job, "workflow_name"@), "Workflow"@)
    &&& record.run_number == integer_or(job, "run_number"@, 0)
    &&& record.run_attempt == integer_or(job, "run_attempt"@, 1)
    &&& record.event@ == or_default(text_member(job, "event"@), "unknown"@)
    &&& record.status@ == or_default(text_member(job, "status"@), "queued"@)
    &&& text_option(record.conclusion) == text_member(job, "conclusion"@)
    &&& text_option(record.head_branch) == text_member(job, "head_branch"@)
    &&& record.head_sha@ == or_default(text_member(job, "head_sha"@), "unknown"@)
    &&& text_option(record.actor_login) == nested_text(payload, "sender"@, "login"@)
    &&& run_address(or_default(text_member(job, "html_url"@), ""@), record.html_url@)
    &&& record.started_at == date_member(job, "started_at"@)
    &&& record.completed_at == date_member(job, "completed_at"@)
    &&& record.github_created_at == instant_or(date_member(job, "created_at"@), now)
    &&& record.github_updated_at == now
}

/// The repository of a run that is not known yet.
pub fn placeholder_repository(payload: &[Member], run_id: i64) -> (r: Result<i64, ApiError>)
    ensures
        match nested_integer(payload@, "repository"@, "id"@) {
            Some(id) => r == Ok::<i64, ApiError>(id),
            None => r is Err && r->Err_0@ == ErrorView::Conflict(
                "Workflow run "@ + signed_decimal(run_id as int)
                    + " arrived before its repository was synced."@,
            ),
        },
{
    match nested_i64(payload, "repository", "id") {
        Some(id) => Ok(id),
        None => Err(
            ApiError::Conflict(
                concat3(
                    "Workflow run ",
                    decimal_i64(run_id).as_str(),
                    " arrived before its repository was synced.",
                ),
            ),
        ),
    }
}

/// The run that stands for one whose job came first.
pub fn placeholder_run(
    payload: &[Member],
    job: &[Member],
    run_id: i64,
    repository_id: i64,
    now: i64,
) -> (r: RunRecord)
    ensures
        describes_placeholder(r, payload@, job@, run_id, repository_id, now),
{
    let job_url: String = string_or(job, "html_url", "");
    let actor_login: Option<String> = match nested_string(payload, "sender", "login") {
        Some(login) => Some(login.to_owned()),
        None => None,
    };
    RunRecord {
        id: run_id,
        repository_id,
        workflow_id: None,
        workflow_name: string_or(job, "workflow_name", "Workflow"),
        run_number: i64_or(job, "run_number", 0),
        run_attempt: i64_or(job, "run_attempt", 1),
        event: string_or(job, "event", "unknown"),
        status: string_or(job, "status", "queued"),
        conclusion: owned_string(job, "conclusion"),
        head_branch: owned_string(job, "head_branch"),
        head_sha: string_or(job, "head_sha", "unknown"),
        actor_login,
        html_url: run_url_of_job(job_url.as_str()),
        started_at: date_value(job, "started_at"),
        completed_at: date_value(job, "completed_at"),
        github_created_at: instant(date_value(job, "created_at"), now),
        github_updated_at: now,
    }
}

// ---------------------------------------------------------------------------
// Scaling for a queued job

/// A pool that could run a queued job.
#[derive(Debug)]
pub struct ScaleCandidate {
    pub id: String,
    pub labels: Vec<String>,
    pub providers: Vec<String>,
    pub desired_count: i64,
    pub max_count: i64,
    pub queue_scale_factor: i64,
    pub busy_count: i64,
}

/// The pool has a provider whose runners answer to every label that is
/// requested.
pub open spec fn can_run(
    architecture: Seq<char>,
    pool: ScaleCandidate,
    requested: Seq<Seq<char>>,
) -> bool {
    compatible(architecture, texts(pool.providers@), requested, texts(pool.labels@), 0)
        < pool.providers@.len()
}

/// The first pool from position `i` on that can run a job.
pub open spec fn runnable_from(
    architecture: Seq<char>,
    pools: Seq<ScaleCandidate>,
    requested: Seq<Seq<char>>,
    i: int,
) -> Option<int>
    decreases pools.len() - i,
{
    if i >= pools.len() {
        None
    } else if can_run(architecture, pools[i], requested) {
        Some(i)
    } else {
        runnable_from(architecture, pools, requested, i + 1)
    }
}

/// The pool that is scaled for a queued job: the first one that can run it.
pub fn pool_for_queued_job(
    architecture: &str,
    pools: &[ScaleCandidate],
    requested: &[String],
) -> (r: Option<usize>)
    ensures
        match r {
            Some(i) => i < pools@.len() && runnable_from(
                architecture@,
                pools@,
                texts(requested@),
                0,
            ) == Some(i as int),
            None => runnable_from(architecture@, pools@, texts(requested@), 0) is None,
        },
{
    let mut i: usize = 0;
    while i < pools.len()
        invariant
            i <= pools@.len(),
            runnable_from(architecture@, pools@, texts(requested@), i as int) == runnable_from(
                architecture@,
                pools@,
                texts(requested@),
                0,
            ),
        decreases pools@.len() - i,
    {
        let found: Option<String> = crate::autoscaling::compatible_runner_provider(
            architecture,
            pools[i].providers.as_slice(),
            requested,
            pools[i].labels.as_slice(),
        );
        if found.is_some() {
            return Some(i);
        }
        i += 1;
    }
    None
}

/// The new number of runners of the pool for a queued job, where it is raised.
pub open spec fn raised_for_job(pool: ScaleCandidate, queued: i64) -> Option<i64> {
    let wanted = target(
        pool.desired_count,
        pool.busy_count,
        queued,
        pool.queue_scale_factor,
        pool.max_count,
    );
    if wanted <= pool.desired_count {
        None
    } else {
        Some(wanted as i64)
    }
}

/// The new number of runners of the pool for a queued job, where it is raised.
pub fn queued_job_target(pool: &ScaleCandidate, queued: i64) -> (r: Option<i64>)
    ensures
        r == raised_for_job(*pool, queued),
{
    let wanted: i64 = scale_up_target(
        pool.desired_count,
        pool.busy_count,
        queued,
        pool.queue_scale_factor,
        pool.max_count,
    );
    if wanted <= pool.desired_count {
        None
    } else {
        Some(wanted)
    }
}

/// The message about a pool that was scaled for a queued job.
pub fn queued_job_message(desired: i64, wanted: i64) -> (r: String)
    ensures
        r@ == "Queued job raised desired capacity from "@ + signed_decimal(desired as int) + " to "@
            + signed_decimal(wanted as int),
{
    concat4(
        "Queued job raised desired capacity from ",
        decimal_i64(desired).as_str(),
        " to ",
        decimal_i64(wanted).as_str(),
    )
}

// ---------------------------------------------------------------------------
// What deliveries do

/// A delivery is signed exactly by `sha256=` and the code of its body under the secret, in
/// hexadecimal of either case; without that in front nothing is.
pub proof fn deliveries_are_signed_with_their_code(
    body: Seq<u8>,
    secret: Seq<char>,
    signature: Seq<char>,
)
    ensures
        signed_with(
            body,
            "sha256="@ + hex_text(hmac_sha256(encode_utf8(secret), body)),
            secret,
        ),
        signed_with(body, signature, secret) ==> "sha256="@.is_prefix_of(signature),
        signed_with(body, signature, secret) ==> hex_bytes(signature.skip(7)) == Some(
            hmac_sha256(encode_utf8(secret), body),
        ),
        hex_bytes(signature) is Some ==> !signed_with(body, signature, secret),
{
    reveal_strlit("sha256=");
    let code = hmac_sha256(encode_utf8(secret), body);
    hexadecimal_reads_back(code);
    signatures_are_bound_to_the_body(body, hex_text(code), secret);
    if hex_bytes(signature) is Some && signed_with(body, signature, secret) {
        assert(signature.take(7) =~= "sha256="@);
        assert(signature.take(7)[0] == signature[0]);
        assert(signature[0] == 's');
        assert(!hex_digit('s'));
    }
}

/// A delivery is processed exactly if it is new and its signature is valid; a new one
/// without a valid signature is refused, and a known one is a duplicate.
pub proof fn new_and_signed_deliveries_are_processed(newly_recorded: bool, signature_valid: bool)
    ensures
        step_for(newly_recorded, signature_valid) == DeliveryStep::Process <==> newly_recorded
            && signature_valid,
        step_for(newly_recorded, signature_valid) == DeliveryStep::Reject <==> newly_recorded
            && !signature_valid,
        step_for(newly_recorded, signature_valid) == DeliveryStep::Duplicate <==> !newly_recorded,
        answer_for(DeliveryStep::Reject, signature_valid) is None,
        answer_for(DeliveryStep::Duplicate, signature_valid) == Some(
            DeliveryAnswer { duplicate: true, failed: false },
        ),
        answer_for(DeliveryStep::Process, signature_valid) == Some(
            DeliveryAnswer { duplicate: false, failed: signature_valid },
        ),
{
}

/// A delivery that comes in is kept with what became of it, and no record of another one
/// changes: it was refused, or processed, or what failed is kept with it.
pub proof fn deliveries_are_kept_with_what_became_of_them(
    records: Map<Seq<char>, DeliveryRecordView>,
    id: Seq<char>,
    signature_valid: bool,
    failure: Option<Seq<char>>,
)
    requires
        !records.contains_key(id),
    ensures
        ({
            let kept = after_delivery(records, id, signature_valid, failure);
            &&& kept.contains_key(id)
            &&& !signature_valid ==> kept[id].status == "rejected"@ && kept[id].error is Some
            &&& signature_valid && failure is None ==> kept[id].status == "processed"@
                && kept[id].error is None
            &&& signature_valid && failure is Some ==> kept[id].status == "failed"@
                && kept[id].error == Some(first_chars(failure->0, 2_000))
            &&& forall|other: Seq<char>|
                other != id && records.contains_key(other) ==> #[trigger] kept.contains_key(other)
                    && kept[other] == records[other]
        }),
{
}

/// A delivery is processed again exactly if it is known, was signed, still has its payload,
/// and is asked for by who administers its installation, or the system where it has none.
pub proof fn signed_deliveries_are_retried_by_administrators(
    delivery: Option<StoredDelivery>,
    installation_admin: bool,
    system_admin: bool,
)
    ensures
        retry_error(delivery, installation_admin, system_admin) is None <==> {
            &&& delivery is Some
            &&& delivery->0.signature_valid
            &&& delivery->0.payload is Some
            &&& delivery->0.installation_id is Some ==> installation_admin
            &&& delivery->0.installation_id is None ==> system_admin
        },
{
}

/// Each event is taken for what its name says; an authorization counts only when it is
/// revoked, and every other event is ignored.
pub proof fn events_are_what_their_names_say(event: Seq<char>, action: Option<Seq<char>>)
    ensures
        event == "installation"@ ==> event_kind(event, action) == EventKind::Installation,
        event == "installation_repositories"@ ==> event_kind(event, action)
            == EventKind::InstallationRepositories,
        event == "workflow_run"@ ==> event_kind(event, action) == EventKind::WorkflowRun,
        event == "workflow_job"@ ==> event_kind(event, action) == EventKind::WorkflowJob,
        event == "github_app_authorization"@ && action == Some("revoked"@) ==> event_kind(
            event,
            action,
        ) == EventKind::AuthorizationRevoked,
        event == "github_app_authorization"@ && action != Some("revoked"@) ==> event_kind(
            event,
            action,
        ) == EventKind::Ignored,
        event != "installation"@ && event != "installation_repositories"@ && event
            != "workflow_run"@ && event != "workflow_job"@ && event != "github_app_authorization"@
            ==> event_kind(event, action) == EventKind::Ignored,
{
    reveal_strlit("installation");
    reveal_strlit("installation_repositories");
    reveal_strlit("workflow_run");
    reveal_strlit("workflow_job");
    reveal_strlit("github_app_authorization");
    assert("installation"@.len() == 12 && "installation_repositories"@.len() == 25
        && "workflow_run"@.len() == 12 && "workflow_job"@.len() == 12
        && "github_app_authorization"@.len() == 24);
    assert("installation"@[0] == 'i' && "workflow_run"@[0] == 'w' && "workflow_run"@[9] == 'r'
        && "workflow_job"@[0] == 'w' && "workflow_job"@[9] == 'j');
}

/// An installation that was deleted is suspended; another one is kept with its own numbers,
/// and with the names, the permissions and the events that came with it.
pub proof fn installations_are_kept_as_they_came(
    change: InstallationChange<'_>,
    action: Option<Seq<char>>,
    payload: Seq<Member>,
    installation: Seq<Member>,
    account: Seq<Member>,
    id: i64,
)
    requires
        installation_change(change, action, payload),
        object_member(payload, "installation"@) == Some(installation),
        integer_member(installation, "id"@) == Some(id),
        object_member(installation, "account"@) == Some(account),
    ensures
        action == Some("deleted"@) ==> change is Suspend && change->Suspend_0 == id,
        action != Some("deleted"@) ==> {
            &&& change is Keep
            &&& change->Keep_0.id == id
            &&& integer_member(account, "id"@) is Some ==> change->Keep_0.account_id
                == integer_member(account, "id"@)->0
            &&& text_member(account, "login"@) is Some ==> change->Keep_0.account_login@
                == text_member(account, "login"@)->0
            &&& text_member(account, "type"@) is Some ==> change->Keep_0.account_type@
                == text_member(account, "type"@)->0
            &&& text_option(change->Keep_0.account_avatar_url) == text_member(
                account,
                "avatar_url"@,
            )
            &&& text_member(installation, "target_type"@) is Some ==> change->Keep_0.target_type@
                == text_member(installation, "target_type"@)->0
            &&& text_member(installation, "repository_selection"@) is Some
                ==> change->Keep_0.repository_selection@ == text_member(
                installation,
                "repository_selection"@,
            )->0
            &&& given(change->Keep_0.permissions) == member(installation, "permissions"@)
            &&& given(change->Keep_0.events) == member(installation, "events"@)
            &&& change->Keep_0.suspended_at == date_millis(
                text_member(installation, "suspended_at"@),
            )
        },
{
}

/// The full name of a repository is its owner, a slash and its name.
pub proof fn full_names_are_split_at_the_first_slash(owner: Seq<char>, name: Seq<char>)
    requires
        !owner.contains('/'),
    ensures
        owner_part(owner + "/"@ + name) == owner,
        name_part(owner + "/"@ + name) == name,
{
    reveal_strlit("/");
    let full = owner + "/"@ + name;
    assert(full[owner.len() as int] == '/');
    assert forall|k: int| 0 <= k < owner.len() implies full[k] != '/' by {
        assert(owner.contains(owner[k]));
    }
    lemma_first_position(full, '/', owner.len() as int);
    assert(full.take(owner.len() as int) =~= owner);
    assert(full.skip(owner.len() as int + 1) =~= name);
}

/// Of the repositories that an event lists, each that has a number is removed by it, and
/// each that has a number and a full name is added with them, in the order of the list.
pub proof fn listed_repositories_are_taken_over(items: Seq<Json>, one: Json)
    ensures
        ({
            let known = one is Object && integer_member(one->Object_0@, "id"@) is Some;
            let named = known && text_member(one->Object_0@, "full_name"@) is Some;
            &&& repository_ids(items.push(one)) == if known {
                repository_ids(items).push(integer_member(one->Object_0@, "id"@)->0)
            } else {
                repository_ids(items)
            }
            &&& repository_records(items.push(one)).len() == repository_records(items).len() + if
                named {
                1int
            } else {
                0int
            }
            &&& repository_records(items).is_prefix_of(repository_records(items.push(one)))
            &&& named ==> {
                let record = repository_records(items.push(one)).last();
                &&& record.id == integer_member(one->Object_0@, "id"@)->0
                &&& record.full_name == text_member(one->Object_0@, "full_name"@)->0
                &&& record.private == flag_member(one->Object_0@, "private"@)
                &&& text_member(one->Object_0@, "default_branch"@) is Some
                    ==> record.default_branch == text_member(
                    one->Object_0@,
                    "default_branch"@,
                )->0
                &&& text_member(one->Object_0@, "html_url"@) is Some ==> record.html_url
                    == text_member(one->Object_0@, "html_url"@)->0
            }
        }),
        repository_ids(Seq::empty()).len() == 0,
        repository_records(Seq::empty()).len() == 0,
{
    assert(items.push(one).drop_last() =~= items);
}

/// A run is kept as the event says: under its own number and those of its repository and
/// workflow, with its state and its conclusion, and with the dates of the event; it is
/// completed at its last change exactly if its state says that it is completed.
pub proof fn runs_are_kept_as_they_came(
    record: RunRecord,
    run: Seq<Member>,
    id: i64,
    repository_id: i64,
    now: i64,
)
    requires
        describes_run(record, run, id, repository_id, now),
    ensures
        record.id == id,
        record.repository_id == repository_id,
        record.workflow_id == integer_member(run, "workflow_id"@),
        text_member(run, "name"@) is Some ==> record.workflow_name@ == text_member(
            run,
            "name"@,
        )->0,
        integer_member(run, "run_number"@) is Some ==> record.run_number == integer_member(
            run,
            "run_number"@,
        )->0,
        integer_member(run, "run_attempt"@) is Some ==> record.run_attempt == integer_member(
            run,
            "run_attempt"@,
        )->0,
        integer_member(run, "run_attempt"@) is None ==> record.run_attempt == 1,
        text_member(run, "event"@) is Some ==> record.event@ == text_member(run, "event"@)->0,
        text_member(run, "status"@) is Some ==> record.status@ == text_member(run, "status"@)->0,
        text_member(run, "status"@) is None ==> record.status@ == "queued"@,
        text_option(record.conclusion) == text_member(run, "conclusion"@),
        text_option(record.head_branch) == text_member(run, "head_branch"@),
        text_member(run, "head_sha"@) is Some ==> record.head_sha@ == text_member(
            run,
            "head_sha"@,
        )->0,
        text_option(record.actor_login) == nested_text(run, "actor"@, "login"@),
        text_member(run, "html_url"@) is Some ==> record.html_url@ == text_member(
            run,
            "html_url"@,
        )->0,
        record.started_at == date_millis(text_member(run, "run_started_at"@)),
        record.status@ == "completed"@ <==> record.completed_at is Some,
        record.completed_at is Some ==> record.completed_at->0 == record.github_updated_at,
        date_millis(text_member(run, "updated_at"@)) is Some ==> record.github_updated_at
            == date_millis(text_member(run, "updated_at"@))->0,
        date_millis(text_member(run, "updated_at"@)) is None ==> record.github_updated_at == now,
        date_millis(text_member(run, "created_at"@)) is Some ==> record.github_created_at
            == date_millis(text_member(run, "created_at"@))->0,
        date_millis(text_member(run, "created_at"@)) is None ==> record.github_created_at == now,
{
}

/// A job is kept as the event says: under its own number and that of its run, with its
/// state, or the event's action where it names none, and with its conclusion, its runner,
/// its labels and its dates.
pub proof fn jobs_are_kept_as_they_came(
    record: JobRecord,
    job: Seq<Member>,
    action: Option<Seq<char>>,
    id: i64,
    run_id: i64,
)
    requires
        describes_job(record, job, action, id, run_id),
    ensures
        record.id == id,
        record.run_id == run_id,
        text_member(job, "name"@) is Some ==> record.name@ == text_member(job, "name"@)->0,
        text_member(job, "status"@) is Some ==> record.status@ == text_member(job, "status"@)->0,
        text_member(job, "status"@) is None && action is Some ==> record.status@ == action->0,
        text_member(job, "status"@) is None && action is None ==> record.status@ == "queued"@,
        text_option(record.conclusion) == text_member(job, "conclusion"@),
        record.runner_id == integer_member(job, "runner_id"@),
        text_option(record.runner_name) == text_member(job, "runner_name"@),
        record.runner_group_id == integer_member(job, "runner_group_id"@),
        text_option(record.runner_group_name) == text_member(job, "runner_group_name"@),
        text_member(job, "html_url"@) is Some ==> record.html_url@ == text_member(
            job,
            "html_url"@,
        )->0,
        record.started_at == date_millis(text_member(job, "started_at"@)),
        record.completed_at == date_millis(text_member(job, "completed_at"@)),
        texts(record.labels@) == texts_among(list_member(job, "labels"@)),
        action is Some ==> record.event@ == "Workflow job "@ + action->0,
        action is None ==> record.event@ == "Workflow job "@ + record.status@,
{
}

/// The labels of a job are the texts of its list, in their order.
pub proof fn labels_are_the_texts_of_their_list(items: Seq<Json>, one: Json)
    ensures
        texts_among(items.push(one)) == match one {
            Json::Text(text) => texts_among(items).push(text@),
            _ => texts_among(items),
        },
        texts_among(Seq::empty()).len() == 0,
{
    assert(items.push(one).drop_last() =~= items);
}

/// A run whose job came first is kept by what the event says of the job, with the address
/// that the job's begins with.
pub proof fn placeholders_are_kept_by_their_job(
    record: RunRecord,
    payload: Seq<Member>,
    job: Seq<Member>,
    run_id: i64,
    repository_id: i64,
    now: i64,
)
    requires
        describes_placeholder(record, payload, job, run_id, repository_id, now),
    ensures
        record.id == run_id,
        record.repository_id == repository_id,
        record.workflow_id is None,
        text_member(job, "workflow_name"@) is Some ==> record.workflow_name@ == text_member(
            job,
            "workflow_name"@,
        )->0,
        text_member(job, "status"@) is Some ==> record.status@ == text_member(job, "status"@)->0,
        text_option(record.conclusion) == text_member(job, "conclusion"@),
        text_option(record.head_branch) == text_member(job, "head_branch"@),
        text_option(record.actor_login) == nested_text(payload, "sender"@, "login"@),
        record.started_at == date_millis(text_member(job, "started_at"@)),
        record.completed_at == date_millis(text_member(job, "completed_at"@)),
        record.github_updated_at == now,
        text_member(job, "html_url"@) is Some ==> record.html_url@.is_prefix_of(
            text_member(job, "html_url"@)->0,
        ) && !contains_text(record.html_url@, "/job/"@),
{
    if text_member(job, "html_url"@) is Some {
        let url = text_member(job, "html_url"@)->0;
        lemma_run_address(url, record.html_url@);
    }
}

proof fn lemma_run_address(url: Seq<char>, address: Seq<char>)
    requires
        run_address(url, address),
    ensures
        address.is_prefix_of(url),
        !contains_text(address, "/job/"@),
{
    reveal_strlit("/job/");
    let mark = "/job/"@;
    if exists|i: int| #[trigger] occurs_at(url, mark, i) {
        let i = choose|i: int| #[trigger]
            occurs_at(url, mark, i) && address == url.take(i) && forall|k: int|
                0 <= k < i ==> !#[trigger] occurs_at(url, mark, k);
        if contains_text(address, mark) {
            let k = choose|k: int| #[trigger] occurs_at(address, mark, k);
            assert(url.subrange(k, k + mark.len()) =~= address.subrange(k, k + mark.len()));
            assert(occurs_at(url, mark, k));
        }
    } else {
        assert(address.is_prefix_of(url)) by {
            assert(url.take(url.len() as int) =~= url);
        }
    }
}

/// The pool that is scaled for a queued job has a provider whose runners answer to all its
/// labels, and no pool before it has; none is scaled only where no pool has.
pub proof fn the_first_pool_for_a_job_is_scaled(
    architecture: Seq<char>,
    pools: Seq<ScaleCandidate>,
    requested: Seq<Seq<char>>,
    from: int,
)
    requires
        0 <= from <= pools.len(),
    ensures
        match runnable_from(architecture, pools, requested, from) {
            Some(k) => {
                &&& from <= k < pools.len()
                &&& exists|p: int|
                    0 <= p < pools[k].providers@.len() && #[trigger] supports(
                        architecture,
                        pools[k].providers@[p]@,
                        requested,
                        texts(pools[k].labels@),
                    )
                &&& forall|i: int, p: int|
                    from <= i < k && 0 <= p < pools[i].providers@.len() ==> !#[trigger] supports(
                        architecture,
                        pools[i].providers@[p]@,
                        requested,
                        texts(pools[i].labels@),
                    )
            },
            None => forall|i: int, p: int|
                from <= i < pools.len() && 0 <= p < pools[i].providers@.len()
                    ==> !#[trigger] supports(
                    architecture,
                    pools[i].providers@[p]@,
                    requested,
                    texts(pools[i].labels@),
                ),
        },
    decreases pools.len() - from,
{
    if from < pools.len() {
        let providers = texts(pools[from].providers@);
        let labels = texts(pools[from].labels@);
        the_first_compatible_provider_is_chosen(architecture, providers, requested, labels, 0);
        assert forall|p: int| 0 <= p < pools[from].providers@.len() implies #[trigger] supports(
            architecture,
            pools[from].providers@[p]@,
            requested,
            labels,
        ) == supports(architecture, providers[p], requested, labels) by {
            assert(providers[p] == pools[from].providers@[p]@);
        }
        let found = compatible(architecture, providers, requested, labels, 0);
        if can_run(architecture, pools[from], requested) {
            assert(supports(
                architecture,
                pools[from].providers@[found]@,
                requested,
                labels,
            ));
        } else {
            the_first_pool_for_a_job_is_scaled(architecture, pools, requested, from + 1);
            assert forall|p: int| 0 <= p < pools[from].providers@.len() implies !#[trigger] supports(
                architecture,
                pools[from].providers@[p]@,
                requested,
                labels,
            ) by {
                assert(!supports(architecture, providers[p], requested, labels));
            }
        }
    }
}

/// Payloads are taken in up to 25 MB. A job occupies its runner while it is in progress, frees
/// it when it is completed, and does nothing to it otherwise.
pub proof fn payloads_and_jobs_have_their_limits(length: nat, status: Seq<char>)
    ensures
        payload_too_large(length) <==> length > 25 * 1_024 * 1_024,
        effect_of("in_progress"@) == RunnerEffect::Occupy,
        effect_of("completed"@) == RunnerEffect::Free,
        status != "in_progress"@ && status != "completed"@ ==> effect_of(status)
            == RunnerEffect::Nothing,
{
    reveal_strlit("in_progress");
    reveal_strlit("completed");
    assert("in_progress"@[0] == 'i' && "completed"@[0] == 'c');
}

/// A queued job raises its pool to the busy runners and what the queued jobs ask for, within
/// the maximum, and never lowers it.
pub proof fn queued_jobs_raise_their_pool(pool: ScaleCandidate, queued: i64)
    requires
        i64::MIN <= queued * pool.queue_scale_factor <= i64::MAX,
        i64::MIN <= pool.busy_count + queued * pool.queue_scale_factor <= i64::MAX,
    ensures
        ({
            let asked = pool.busy_count + queued * pool.queue_scale_factor;
            match raised_for_job(pool, queued) {
                Some(wanted) => {
                    &&& wanted > pool.desired_count
                    &&& wanted == asked || (wanted == pool.max_count && asked > pool.max_count)
                    &&& wanted <= pool.max_count
                },
                None => asked <= pool.desired_count || pool.max_count <= pool.desired_count,
            }
        }),
{
}

}
