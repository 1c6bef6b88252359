//! Keeping credentials out of what is reported.
use vstd::prelude::*;

use crate::llm::types::{AuthContext, AuthView, ProviderError, ProviderErrorView};
use crate::text::{
    contains_text, foreign_to, lemma_replaced_brings_nothing, lemma_replaced_is_gone, replace_text,
    replaced, texts,
};

verus! {

/// The credentials in a context.
pub open spec fn auth_secrets(a: AuthView) -> Seq<Seq<char>> {
    match a {
        AuthView::NoAuth => Seq::empty(),
        AuthView::ApiKey { key, .. } => seq![key],
        AuthView::BearerToken { token } => seq![token],
        AuthView::AwsSignature { access_key_id, secret_access_key, session_token } => {
            match session_token {
                Some(token) => seq![access_key_id, secret_access_key, token],
                None => seq![access_key_id, secret_access_key],
            }
        },
        AuthView::AzureToken { api_key } => seq![api_key],
    }
}

pub fn auth_secret_values(auth_context: &AuthContext) -> (r: Vec<String>)
    ensures
        texts(r@) == auth_secrets(auth_context@),
{
    let mut r: Vec<String> = Vec::new();
    match auth_context {
        AuthContext::NoAuth => {},
        AuthContext::ApiKey { key, .. } => {
            r.push(key.clone());
        },
        AuthContext::BearerToken { token } => {
            r.push(token.clone());
        },
        AuthContext::AwsSignature { access_key_id, secret_access_key, session_token } => {
            r.push(access_key_id.clone());
            r.push(secret_access_key.clone());
            if let Some(token) = session_token {
                r.push(token.clone());
            }
        },
        AuthContext::AzureToken { api_key } => {
            r.push(api_key.clone());
        },
    }
    assert(texts(r@) =~= auth_secrets(auth_context@));
    r
}

/// `message` with each of the secrets, one after the other, replaced by a marker.
pub open spec fn redacted(message: Seq<char>, secrets: Seq<Seq<char>>) -> Seq<char>
    decreases secrets.len(),
{
    if secrets.len() == 0 {
        message
    } else {
        let before = redacted(message, secrets.drop_last());
        if secrets.last().len() == 0 {
            before
        } else {
            replaced(before, secrets.last(), "<redacted>"@)
        }
    }
}

/// The error without the credentials that its message may repeat.
pub fn redact_error(error: ProviderError, secrets: &Vec<String>) -> (r: ProviderError)
    ensures
        r@ == (ProviderErrorView {
            message: redacted(error@.message, texts(secrets@)),
            ..error@
        }),
{
    let ghost all = texts(secrets@);
    let mut message = error.message;
    let ghost before = message@;
    let mut i: usize = 0;
    assert(all.take(0) =~= Seq::<Seq<char>>::empty());
    while i < secrets.len()
        invariant
            i <= secrets@.len(),
            all == texts(secrets@),
            message@ == redacted(before, all.take(i as int)),
        decreases secrets@.len() - i,
    {
        assert(all.take(i + 1).drop_last() =~= all.take(i as int));
        assert(all.take(i + 1).last() == secrets@[i as int]@);
        if !secrets[i].as_str().is_empty() {
            message = replace_text(message.as_str(), secrets[i].as_str(), "<redacted>");
        }
        i += 1;
    }
    assert(all.take(i as int) =~= all);
    ProviderError { code: error.code, message, retryable: error.retryable }
}

/// The error without the credentials of the context that the call was made with.
pub fn redact_error_for_request(error: ProviderError, auth_context: &AuthContext) -> (r:
    ProviderError)
    ensures
        r@ == (ProviderErrorView {
            message: redacted(error@.message, auth_secrets(auth_context@)),
            ..error@
        }),
{
    let secrets = auth_secret_values(auth_context);
    redact_error(error, &secrets)
}

/// A redacted message repeats none of the secrets. A secret that could be part of
/// the marker itself is beyond this.
pub proof fn law_redacted_errors_do_not_leak(
    message: Seq<char>,
    secrets: Seq<Seq<char>>,
    secret: Seq<char>,
)
    requires
        secrets.contains(secret),
        foreign_to(secret, "<redacted>"@),
    ensures
        !contains_text(redacted(message, secrets), secret),
    decreases secrets.len(),
{
    let front = secrets.drop_last();
    if secrets.last() == secret {
        lemma_replaced_is_gone(redacted(message, front), secret, "<redacted>"@);
    } else {
        let i = choose|i: int| 0 <= i < secrets.len() && secrets[i] == secret;
        assert(front[i] == secret);
        law_redacted_errors_do_not_leak(message, front, secret);
        lemma_replaced_brings_nothing(
            redacted(message, front),
            secrets.last(),
            "<redacted>"@,
            secret,
        );
    }
}

} // verus!
