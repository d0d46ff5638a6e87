//! Bearer tokens: validation, refreshing and the header they become.

use crate::error::Error;
use crate::time::Span;
use vstd::prelude::*;

verus! {

/// Controls how aggressively a refreshing credential is renewed.
///
/// The source is queried once during construction, then every
/// `refresh_interval`. A failed refresh keeps the last valid token and retries
/// after `retry_interval`.
#[derive(Clone, Copy, Debug, PartialEq, Eq, Structural)]
pub struct RefreshingAuthConfig {
    /// Delay between successful token refreshes. Choose a value comfortably
    /// below the credential lifetime.
    pub refresh_interval: Span,
    /// Backoff after a token-source failure. Existing clients continue using
    /// the last valid token during this interval.
    pub retry_interval: Span,
}

impl Default for RefreshingAuthConfig {
    fn default() -> (config: Self)
        ensures
            config.refresh_interval.nanos == 30_000_000_000,
            config.retry_interval.nanos == 5_000_000_000,
    {
        RefreshingAuthConfig {
            refresh_interval: Span::from_secs(30),
            retry_interval: Span::from_secs(5),
        }
    }
}

/// Supplies bearer tokens to `BearerAuth`.
///
/// Return the raw token without a `Bearer ` prefix.
pub trait AccessTokenSource {
    /// Fetch a currently usable access token.
    fn access_token(&self) -> Result<String, Error>;
}

/// How long a refresh may take.
pub fn token_refresh_timeout() -> (timeout: Span)
    ensures
        timeout.nanos == 30_000_000_000,
{
    Span::from_secs(30)
}

/// Whether a character can stand in the value of a metadata field: a tab, or
/// no control character.
pub open spec fn metadata_char(c: char) -> bool {
    c as u32 >= 32 && c as u32 != 127 || c as u32 == 9
}

/// Whether a text can be the value of a metadata field.
pub open spec fn metadata_value(text: Seq<char>) -> bool {
    forall|i: int| 0 <= i < text.len() ==> metadata_char(#[trigger] text[i])
}

/// `tonic::metadata::MetadataValue::<Ascii>::try_from` on a string: it
/// succeeds exactly if no byte of the text is a control character other than
/// the tab. The bytes of a character beyond ASCII are all accepted.
#[verifier::external_body]
pub(crate) fn is_metadata_value(text: &str) -> (valid: bool)
    ensures
        valid == metadata_value(text@),
{
    tonic::metadata::MetadataValue::<tonic::metadata::Ascii>::try_from(text).is_ok()
}

/// The value of the authorization header for a token.
pub open spec fn header_text(token: Seq<char>) -> Seq<char> {
    "Bearer "@ + token
}

/// Whether a source may supply this token.
pub open spec fn valid_token(token: Seq<char>) -> bool {
    token.len() > 0 && metadata_value(header_text(token))
}

fn header(token: &str) -> (text: String)
    ensures
        text@ == header_text(token@),
{
    let mut text = "Bearer ".to_owned();
    text.append(token);
    text
}

/// Accepts a token that is not empty and can stand in the header.
pub fn validate_token(token: &str) -> (result: Result<(), Error>)
    ensures
        if valid_token(token@) {
            result is Ok
        } else {
            result matches Err(Error::InvalidToken)
        },
{
    if token.unicode_len() == 0 {
        return Err(Error::InvalidToken);
    }
    let text = header(token);
    if is_metadata_value(text.as_str()) {
        Ok(())
    } else {
        Err(Error::InvalidToken)
    }
}

/// Authentication by a bearer token. It is not printable: the token stays out
/// of debug output.
pub struct BearerAuth {
    /// The token in use.
    pub token: String,
    /// Whether the token is renewed in the background.
    pub refreshing: bool,
}

impl BearerAuth {
    /// A token that is never renewed. It is not checked before it is used.
    pub fn static_token(token: String) -> (auth: Self)
        ensures
            auth == (BearerAuth { token, refreshing: false }),
    {
        BearerAuth { token, refreshing: false }
    }

    /// A renewed token whose source was queried for the first time.
    ///
    /// Callers never receive a handle without a usable credential.
    pub fn first_token(config: &RefreshingAuthConfig, fetched: Result<String, Error>) -> (result:
        Result<Self, Error>)
        ensures
            if config.refresh_interval.nanos == 0 || config.retry_interval.nanos == 0 {
                result matches Err(Error::InvalidRefreshInterval)
            } else {
                match fetched {
                    Ok(token) => if valid_token(token@) {
                        result == Ok::<BearerAuth, Error>(BearerAuth { token, refreshing: true })
                    } else {
                        result matches Err(Error::InvalidToken)
                    },
                    Err(error) => result == Err::<BearerAuth, Error>(error),
                }
            },
    {
        if config.refresh_interval.is_zero() || config.retry_interval.is_zero() {
            return Err(Error::InvalidRefreshInterval);
        }
        match fetched {
            Ok(token) => match validate_token(token.as_str()) {
                Ok(()) => Ok(BearerAuth { token, refreshing: true }),
                Err(error) => Err(error),
            },
            Err(error) => Err(error),
        }
    }

    /// A renewed token from a source, which is queried once. Where an interval
    /// is zero the source is not queried.
    pub fn refreshing<S: AccessTokenSource>(source: &S, config: &RefreshingAuthConfig) -> (result:
        Result<Self, Error>)
        ensures
            if config.refresh_interval.nanos == 0 || config.retry_interval.nanos == 0 {
                result matches Err(Error::InvalidRefreshInterval)
            } else {
                exists|fetched: Result<String, Error>| #[trigger]
                    call_ensures(S::access_token, (source,), fetched) && result == (match fetched {
                        Ok(token) => if valid_token(token@) {
                            Ok(BearerAuth { token, refreshing: true })
                        } else {
                            Err(Error::InvalidToken)
                        },
                        Err(error) => Err(error),
                    })
            },
            result matches Ok(auth) ==> auth.refreshing && valid_token(auth.token@),
    {
        if config.refresh_interval.is_zero() || config.retry_interval.is_zero() {
            return Err(Error::InvalidRefreshInterval);
        }
        let fetched = source.access_token();
        assert(call_ensures(S::access_token, (source,), fetched));
        BearerAuth::first_token(config, fetched)
    }

    /// Takes the outcome of a refresh in (`None` if it timed out) and gives the
    /// delay before the next. A failed refresh, or one that brought an invalid
    /// token, keeps the last valid token, so a handle that was usable stays so.
    pub fn refreshed(
        &mut self,
        config: &RefreshingAuthConfig,
        fetched: Option<Result<String, Error>>,
    ) -> (delay: Span)
        ensures
            final(self).refreshing == old(self).refreshing,
            valid_token(old(self).token@) ==> valid_token(final(self).token@),
            match fetched {
                Some(Ok(token)) => if valid_token(token@) {
                    final(self).token == token && delay == config.refresh_interval
                } else {
                    final(self).token == old(self).token && delay == config.retry_interval
                },
                _ => final(self).token == old(self).token && delay == config.retry_interval,
            },
    {
        match fetched {
            Some(Ok(token)) => match validate_token(token.as_str()) {
                Ok(()) => {
                    self.token = token;
                    config.refresh_interval
                },
                Err(_) => config.retry_interval,
            },
            Some(Err(_)) => config.retry_interval,
            None => config.retry_interval,
        }
    }

    /// The value of the authorization header.
    pub fn authorization_header(&self) -> (result: Result<String, Error>)
        ensures
            if metadata_value(header_text(self.token@)) {
                result matches Ok(text) && text@ == header_text(self.token@)
            } else {
                result matches Err(Error::InvalidToken)
            },
    {
        let text = header(self.token.as_str());
        if is_metadata_value(text.as_str()) {
            Ok(text)
        } else {
            Err(Error::InvalidToken)
        }
    }
}

/// Whether a header with this text could be sent: none of its characters is a
/// control character, but for the tab.
pub open spec fn sendable(text: Seq<char>) -> bool {
    forall|i: int|
        0 <= i < text.len() ==> #[trigger] text[i] as u32 == 9 || (text[i] as u32 >= 32
            && text[i] as u32 != 127)
}

proof fn lemma_sendable(token: Seq<char>)
    ensures
        metadata_value(header_text(token)) <==> sendable(token),
{
    reveal_strlit("Bearer ");
    let text = "Bearer "@ + token;
    if sendable(token) {
        assert forall|i: int| 0 <= i < text.len() implies metadata_char(#[trigger] text[i]) by {
            if i >= 7 {
                assert(text[i] == token[i - 7]);
            }
        }
    }
    if metadata_value(text) {
        assert forall|i: int| 0 <= i < token.len() implies #[trigger] token[i] as u32 == 9
            || (token[i] as u32 >= 32 && token[i] as u32 != 127) by {
            assert(text[i + 7] == token[i]);
            assert(metadata_char(text[i + 7]));
        }
    }
}

/// A token is accepted exactly if it is not empty and can be sent.
pub proof fn law_tokens_must_be_sendable(token: &str, result: Result<(), Error>)
    requires
        call_ensures(validate_token, (token,), result),
    ensures
        result is Ok <==> token@.len() > 0 && sendable(token@),
        result is Err ==> result->Err_0 is InvalidToken,
{
    lemma_sendable(token@);
}

/// A renewed credential exists only with two intervals that are not zero and a
/// first token that can be sent; the token is the fetched one, and the failure of
/// a source is handed on.
pub proof fn law_first_token_must_be_usable(
    config: &RefreshingAuthConfig,
    fetched: Result<String, Error>,
    result: Result<BearerAuth, Error>,
)
    requires
        call_ensures(BearerAuth::first_token, (config, fetched), result),
    ensures
        ({
            let timed = config.refresh_interval.nanos > 0 && config.retry_interval.nanos > 0;
            &&& result is Ok <==> timed && fetched is Ok && fetched->Ok_0@.len() > 0 && sendable(
                fetched->Ok_0@,
            )
            &&& result is Ok ==> result->Ok_0.token == fetched->Ok_0 && result->Ok_0.refreshing
            &&& !timed ==> result->Err_0 is InvalidRefreshInterval
            &&& timed && fetched is Err ==> result->Err_0 == fetched->Err_0
            &&& timed && fetched is Ok && result is Err ==> result->Err_0 is InvalidToken
        }),
{
    if fetched is Ok {
        lemma_sendable(fetched->Ok_0@);
    }
}

/// A refresh takes a new token only if it can be sent, and then waits for the
/// long interval; anything else keeps the old token and waits for the short one.
pub proof fn law_failed_refresh_keeps_the_token(
    auth: &mut BearerAuth,
    config: &RefreshingAuthConfig,
    fetched: Option<Result<String, Error>>,
    delay: Span,
)
    requires
        call_ensures(BearerAuth::refreshed, (auth, config, fetched), delay),
    ensures
        ({
            let usable = fetched is Some && fetched->Some_0 is Ok && fetched->Some_0->Ok_0@.len()
                > 0 && sendable(fetched->Some_0->Ok_0@);
            &&& usable ==> final(auth).token == fetched->Some_0->Ok_0 && delay
                == config.refresh_interval
            &&& !usable ==> final(auth).token == old(auth).token && delay == config.retry_interval
            &&& final(auth).refreshing == old(auth).refreshing
        }),
{
    if fetched is Some && fetched->Some_0 is Ok {
        lemma_sendable(fetched->Some_0->Ok_0@);
    }
}

/// The header of a credential is its token behind the scheme; a token that was
/// never checked fails here if it cannot be sent.
pub proof fn law_header_carries_the_token(
    token: String,
    fixed: BearerAuth,
    auth: &BearerAuth,
    result: Result<String, Error>,
    timeout: Span,
)
    requires
        call_ensures(BearerAuth::static_token, (token,), fixed),
        call_ensures(BearerAuth::authorization_header, (auth,), result),
        call_ensures(token_refresh_timeout, (), timeout),
    ensures
        fixed.token == token && !fixed.refreshing,
        result is Ok <==> sendable(auth.token@),
        result is Ok ==> result->Ok_0@ == "Bearer "@ + auth.token@,
        result is Err ==> result->Err_0 is InvalidToken,
        timeout.nanos == 30 * 1_000_000_000,
{
    lemma_sendable(auth.token@);
}

/// A renewed token comes from its source, and only as one that can be sent; no
/// handle comes without one, nor where an interval is zero.
pub proof fn law_renewed_tokens_come_from_the_source<S: AccessTokenSource>(
    source: &S,
    config: &RefreshingAuthConfig,
    result: Result<BearerAuth, Error>,
)
    requires
        call_ensures(BearerAuth::refreshing::<S>, (source, config), result),
    ensures
        config.refresh_interval.nanos == 0 || config.retry_interval.nanos == 0 ==> result is Err
            && result->Err_0 is InvalidRefreshInterval,
        result is Ok ==> {
            &&& result->Ok_0.refreshing
            &&& result->Ok_0.token@.len() > 0 && sendable(result->Ok_0.token@)
            &&& call_ensures(
                S::access_token,
                (source,),
                Ok::<String, Error>(result->Ok_0.token),
            )
        },
{
    if result is Ok {
        lemma_sendable(result->Ok_0.token@);
    }
}

} // verus!
