//! The package webhook: which requests are accepted for an update, and why
//! the others are turned away.

use vstd::prelude::*;
use vstd::utf8::encode_utf8;
use crate::text::{trim, trim_str, str_eq, owned};
use crate::config::opt_str;
use crate::json::Json;
use crate::signature::{signature_valid, signature_check_spec, verify_github_signature, SignatureCheck};
use crate::github::{event_allowed_spec, github_event_allowed, container_image_spec, extract_container_image_value};
use crate::units::{lookup_unit_spec, lookup_unit_from_path, images_match, images_match_spec};

verus! {

/// What the webhook handler does with a request, up to the rate limit.
pub enum WebhookDecision {
    /// 405: only `POST` is served.
    MethodNotAllowed,
    /// 500: no webhook secret is configured.
    MissingSecret,
    /// 401: no `X-Hub-Signature-256` header.
    MissingSignature,
    /// 401: the signature does not match; the check's record.
    BadSignature(SignatureCheck),
    /// 202: the event is not on the allow list.
    EventIgnored(String),
    /// 202: the path names no unit.
    NoUnit(String),
    /// 202: the payload names no usable image; the reason and the event.
    Skipped(String, String),
    /// Go on with the unit, the image and the event.
    Proceed(String, String, String),
}

/// The event name of a request (`unknown` when the header is missing).
pub open spec fn event_name(event: Option<Seq<char>>) -> Seq<char> {
    match event {
        Some(e) => e,
        None => "unknown"@,
    }
}

/// The secret in use: the setting, trimmed (empty when unset).
pub open spec fn secret_of(raw: Option<Seq<char>>) -> Seq<char> {
    match raw {
        Some(s) => trim(s),
        None => Seq::<char>::empty(),
    }
}

/// The kind of a webhook decision, with what it carries as plain values.
pub enum WebhookVerdict {
    MethodNotAllowed,
    MissingSecret,
    MissingSignature,
    BadSignature,
    EventIgnored(Seq<char>),
    NoUnit(Seq<char>),
    Skipped(Seq<char>, Seq<char>),
    Proceed(Seq<char>, Seq<char>, Seq<char>),
}

/// The plain verdict of a decision.
pub open spec fn verdict_of(d: WebhookDecision) -> WebhookVerdict {
    match d {
        WebhookDecision::MethodNotAllowed => WebhookVerdict::MethodNotAllowed,
        WebhookDecision::MissingSecret => WebhookVerdict::MissingSecret,
        WebhookDecision::MissingSignature => WebhookVerdict::MissingSignature,
        WebhookDecision::BadSignature(_) => WebhookVerdict::BadSignature,
        WebhookDecision::EventIgnored(e) => WebhookVerdict::EventIgnored(e@),
        WebhookDecision::NoUnit(e) => WebhookVerdict::NoUnit(e@),
        WebhookDecision::Skipped(r, e) => WebhookVerdict::Skipped(r@, e@),
        WebhookDecision::Proceed(u, i, e) => WebhookVerdict::Proceed(u@, i@, e@),
    }
}

/// The checks of the webhook handler, in order: method, secret,
/// signature header, signature, event allow list, unit of the path, image of
/// the payload (`payload` is the parsed body, or why it could not be read).
pub open spec fn webhook_spec(
    method: Seq<char>,
    secret_raw: Option<Seq<char>>,
    signature: Option<Seq<char>>,
    body: Seq<u8>,
    event: Option<Seq<char>>,
    allowed_events: Option<Seq<char>>,
    path: Seq<char>,
    payload: Result<Json, Seq<char>>,
) -> WebhookVerdict {
    let secret = secret_of(secret_raw);
    let ev = event_name(event);
    if method != "POST"@ {
        WebhookVerdict::MethodNotAllowed
    } else if secret.len() == 0 {
        WebhookVerdict::MissingSecret
    } else if signature is None {
        WebhookVerdict::MissingSignature
    } else if !signature_valid(signature->0, encode_utf8(secret), body) {
        WebhookVerdict::BadSignature
    } else if !event_allowed_spec(ev, allowed_events) {
        WebhookVerdict::EventIgnored(ev)
    } else {
        match lookup_unit_spec(path) {
            None => WebhookVerdict::NoUnit(ev),
            Some(unit) => match payload {
                Err(reason) => WebhookVerdict::Skipped(reason, ev),
                Ok(j) => match container_image_spec(j) {
                    Err(reason) => WebhookVerdict::Skipped(reason, ev),
                    Ok(image) => WebhookVerdict::Proceed(unit, image, ev),
                },
            },
        }
    }
}

/// The view of a parsed payload.
pub open spec fn payload_view(p: &Result<Json, String>) -> Result<Json, Seq<char>> {
    match p {
        Ok(j) => Ok(*j),
        Err(e) => Err(e@),
    }
}

/// Decides a webhook request (the checks of the webhook handler before
/// the rate limit).
#[verifier::loop_isolation(false)]
pub fn webhook_decision(
    method: &str,
    secret_raw: Option<&str>,
    signature: Option<&str>,
    body: &[u8],
    event: Option<&str>,
    allowed_events: Option<&str>,
    path: &str,
    payload: &Result<Json, String>,
) -> (r: WebhookDecision)
    ensures
        verdict_of(r) == webhook_spec(
            method@,
            opt_str(secret_raw),
            opt_str(signature),
            body@,
            opt_str(event),
            opt_str(allowed_events),
            path@,
            payload_view(payload),
        ),
        r matches WebhookDecision::BadSignature(c) ==> !c.valid && (opt_str(signature) matches Some(sg)
            && signature_check_spec(c, sg, secret_of(opt_str(secret_raw)), body@)),
{
    if !str_eq(method, "POST") {
        return WebhookDecision::MethodNotAllowed;
    }
    let secret = match secret_raw {
        Some(s) => trim_str(s),
        None => "",
    };
    proof {
        reveal_strlit("");
        assert(secret@ == secret_of(opt_str(secret_raw)));
    }
    if secret.unicode_len() == 0 {
        return WebhookDecision::MissingSecret;
    }
    let sig = match signature {
        Some(s) => s,
        None => {
            return WebhookDecision::MissingSignature;
        },
    };
    let check = match verify_github_signature(sig, secret, body) {
        Ok(c) => c,
        Err(_) => {
            return WebhookDecision::MissingSignature;
        },
    };
    if !check.valid {
        return WebhookDecision::BadSignature(check);
    }
    let ev = match event {
        Some(e) => owned(e),
        None => String::from_str("unknown"),
    };
    if !github_event_allowed(ev.as_str(), allowed_events) {
        return WebhookDecision::EventIgnored(ev);
    }
    let unit = match lookup_unit_from_path(path) {
        Some(u) => u,
        None => {
            return WebhookDecision::NoUnit(ev);
        },
    };
    match payload {
        Err(reason) => WebhookDecision::Skipped(owned(reason.as_str()), ev),
        Ok(j) => match extract_container_image_value(j) {
            Err(reason) => WebhookDecision::Skipped(reason, ev),
            Ok(image) => WebhookDecision::Proceed(unit, image, ev),
        },
    }
}

/// Only a correctly signed request, with a configured secret, is ever let
/// through to an update.
pub proof fn lemma_proceed_needs_signature(
    method: Seq<char>,
    secret_raw: Option<Seq<char>>,
    signature: Option<Seq<char>>,
    body: Seq<u8>,
    event: Option<Seq<char>>,
    allowed_events: Option<Seq<char>>,
    path: Seq<char>,
    payload: Result<Json, Seq<char>>,
)
    requires
        webhook_spec(method, secret_raw, signature, body, event, allowed_events, path, payload) is Proceed,
    ensures
        method == "POST"@,
        secret_of(secret_raw).len() > 0,
        signature matches Some(s) && signature_valid(s, encode_utf8(secret_of(secret_raw)), body),
        event_allowed_spec(event_name(event), allowed_events),
        lookup_unit_spec(path) is Some,
{
}

/// The image check against the unit's configured image, and the delivery
/// id (`unknown` when missing).
pub enum ImageGate {
    /// 202: the unit is configured for another image; the expected image.
    TagMismatch(String),
    /// Go on with this delivery id.
    Queue(String),
}

/// Holds the image against the unit's own image setting, when it has one.
pub fn image_gate(image: &str, configured: Option<&str>, delivery: Option<&str>) -> (r: ImageGate)
    ensures
        r matches ImageGate::TagMismatch(e) ==> configured matches Some(c) && e@ == c@
            && !images_match_spec(image@, c@),
        r matches ImageGate::Queue(d) ==> (match configured {
            Some(c) => images_match_spec(image@, c@),
            None => true,
        }) && d@ == event_name(opt_str(delivery)),
{
    match configured {
        Some(c) => {
            if !images_match(image, c) {
                return ImageGate::TagMismatch(owned(c));
            }
        },
        None => {},
    }
    match delivery {
        Some(d) => ImageGate::Queue(owned(d)),
        None => ImageGate::Queue(String::from_str("unknown")),
    }
}

} // verus!
