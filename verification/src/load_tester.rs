//! The load test's configuration, the normalisation of its target URL and
//! the pacing with which it opens connections.

use vstd::prelude::*;
use vstd::string::*;
use crate::text::{
    has_prefix, is_white_space, lemma_replace_all_last, lemma_trim_fixed, lemma_trimmed_ends,
    replace_all, replace_all_spec, starts_with, trim, trim_spec,
};

verus! {

/// The outcome of `url::Url::parse` on `input`: `None` when it parses,
/// otherwise the text of the parse error.
pub uninterp spec fn url_parse_failure(input: Seq<char>) -> Option<Seq<char>>;

/// Calls `url::Url::parse`. Claimed: the call returns `Ok` exactly when the
/// named outcome for this input is `None`, and otherwise the error's
/// `Display` text is the named one. What the parser accepts is not stated.
#[verifier::external_body]
fn parse_url(input: &str) -> (r: Result<(), String>)
    ensures
        match r {
            Ok(()) => url_parse_failure(input@) is None,
            Err(text) => url_parse_failure(input@) == Some(text@),
        },
{
    match url::Url::parse(input) {
        Ok(_) => Ok(()),
        Err(e) => Err(e.to_string()),
    }
}

/// What `validate_url` returns for the URL `u` after trimming, given the
/// outcome of parsing it.
pub open spec fn checked_url(u: Seq<char>, parsed: Option<Seq<char>>) -> Result<Seq<char>, Seq<char>> {
    match parsed {
        None => Ok(u),
        Some(e) => Err("Invalid URL: "@ + e),
    }
}

/// What `validate_url` returns for `input`: the trimmed URL, with an
/// `http://` scheme turned into `ws://`, `https://` into `wss://` (every
/// occurrence, as a string replacement does), and `ws://` put in front of
/// a URL without any of these schemes; a `ws://` or `wss://` URL is
/// returned as it is if it parses, and an error naming the parse failure
/// otherwise.
pub open spec fn validated_url(input: Seq<char>) -> Result<Seq<char>, Seq<char>> {
    let u = trim_spec(input);
    if !has_prefix(u, "ws://"@) && !has_prefix(u, "wss://"@) {
        if has_prefix(u, "http://"@) {
            Ok(replace_all_spec(u, "http://"@, "ws://"@))
        } else if has_prefix(u, "https://"@) {
            Ok(replace_all_spec(u, "https://"@, "wss://"@))
        } else {
            Ok("ws://"@ + u)
        }
    } else {
        checked_url(u, url_parse_failure(u))
    }
}

/// Settings of an endless load test.
pub struct LoadTester {
    /// the WebSocket URL to connect to
    pub url: String,
    /// connections to keep open
    pub num_connections: usize,
    /// pause between two probes on a connection
    pub message_interval_ms: u64,
    /// how long a connection attempt may take
    pub connection_timeout_ms: u64,
    /// how long sending a probe may take
    pub message_timeout_ms: u64,
    /// pause before reconnecting
    pub reconnect_delay_ms: u64,
}

/// Connections opened between two progress reports.
pub const PROGRESS_EVERY: usize = 50;

/// The pause after opening connection `i`, and whether to report progress
/// before it: every 50th connection after the first is followed by a short
/// pause of 2 ms and a progress report, every other one by 20 ms.
pub open spec fn pacing_spec(i: usize) -> (bool, u64) {
    if i % 50 == 0 && i > 0 {
        (true, 2)
    } else {
        (false, 20)
    }
}

impl LoadTester {
    /// A load test with the given settings.
    pub fn new(
        url: String,
        num_connections: usize,
        message_interval_ms: u64,
        connection_timeout_ms: u64,
        message_timeout_ms: u64,
        reconnect_delay_ms: u64,
    ) -> (t: LoadTester)
        ensures
            t.url == url,
            t.num_connections == num_connections,
            t.message_interval_ms == message_interval_ms,
            t.connection_timeout_ms == connection_timeout_ms,
            t.message_timeout_ms == message_timeout_ms,
            t.reconnect_delay_ms == reconnect_delay_ms,
    {
        LoadTester {
            url,
            num_connections,
            message_interval_ms,
            connection_timeout_ms,
            message_timeout_ms,
            reconnect_delay_ms,
        }
    }

    /// Normalises a target URL to a WebSocket URL (see `validated_url`).
    pub fn validate_url(url: &str) -> (r: Result<String, String>)
        ensures
            match r {
                Ok(s) => validated_url(url@) == Ok::<Seq<char>, Seq<char>>(s@),
                Err(e) => validated_url(url@) == Err::<Seq<char>, Seq<char>>(e@),
            },
    {
        let u = trim(url);
        if !starts_with(u, "ws://") && !starts_with(u, "wss://") {
            if starts_with(u, "http://") {
                proof {
                    reveal_strlit("http://");
                }
                return Ok(replace_all(u, "http://", "ws://"));
            } else if starts_with(u, "https://") {
                proof {
                    reveal_strlit("https://");
                }
                return Ok(replace_all(u, "https://", "wss://"));
            } else {
                let mut s = String::from_str("ws://");
                s.append(u);
                return Ok(s);
            }
        }
        let parsed = parse_url(u);
        Self::accept_parsed(u, parsed)
    }

    /// The verdict on a `ws://` or `wss://` URL once the URL parser has
    /// answered: the URL itself, or `Invalid URL: ` and the parser's error.
    pub fn accept_parsed(url: &str, parsed: Result<(), String>) -> (r: Result<String, String>)
        ensures
            match parsed {
                Ok(()) => r matches Ok(s) && s@ == url@,
                Err(t) => r matches Err(e) && e@ == "Invalid URL: "@ + t@,
            },
    {
        match parsed {
            Ok(()) => Ok(String::from_str(url)),
            Err(text) => {
                let mut msg = String::from_str("Invalid URL: ");
                msg.append(text.as_str());
                Err(msg)
            },
        }
    }

    /// The pause after opening connection `i` and whether to report progress.
    pub fn pacing(i: usize) -> (r: (bool, u64))
        ensures
            r == pacing_spec(i),
    {
        if i % PROGRESS_EVERY == 0 && i > 0 {
            (true, 2)
        } else {
            (false, 20)
        }
    }
}

/// Every URL that validation accepts is a WebSocket URL: it starts with
/// `ws://` or `wss://`.
pub proof fn law_validated_is_websocket(input: Seq<char>)
    ensures
        validated_url(input) matches Ok(u) ==> has_prefix(u, "ws://"@) || has_prefix(u, "wss://"@),
{
    reveal_strlit("ws://");
    reveal_strlit("wss://");
    reveal_strlit("http://");
    reveal_strlit("https://");
    let u = trim_spec(input);
    if !has_prefix(u, "ws://"@) && !has_prefix(u, "wss://"@) {
        if has_prefix(u, "http://"@) {
            let rest = replace_all_spec(u.subrange(7, u.len() as int), "http://"@, "ws://"@);
            assert(replace_all_spec(u, "http://"@, "ws://"@) == "ws://"@ + rest);
            assert(("ws://"@ + rest).subrange(0, 5) =~= "ws://"@);
        } else if has_prefix(u, "https://"@) {
            let rest = replace_all_spec(u.subrange(8, u.len() as int), "https://"@, "wss://"@);
            assert(replace_all_spec(u, "https://"@, "wss://"@) == "wss://"@ + rest);
            assert(("wss://"@ + rest).subrange(0, 6) =~= "wss://"@);
        } else {
            assert(("ws://"@ + u).subrange(0, 5) =~= "ws://"@);
        }
    }
}

/// Validation is idempotent: a URL that validation produced and that the
/// URL parser accepts is validated to itself.
pub proof fn law_validation_idempotent(u: Seq<char>, v: Seq<char>)
    requires
        validated_url(u) == Ok::<Seq<char>, Seq<char>>(v),
        url_parse_failure(v) is None,
    ensures
        validated_url(v) == Ok::<Seq<char>, Seq<char>>(v),
{
    reveal_strlit("ws://");
    reveal_strlit("wss://");
    reveal_strlit("http://");
    reveal_strlit("https://");
    law_validated_is_websocket(u);
    let t = trim_spec(u);
    lemma_trimmed_ends(u);
    assert(!is_white_space('w'));
    assert(!is_white_space('/'));
    assert(v.len() > 0 && v[0] == 'w') by {
        if has_prefix(v, "ws://"@) {
            assert(v[0] == v.subrange(0, 5)[0]);
        } else {
            assert(v[0] == v.subrange(0, 6)[0]);
        }
    }
    if !has_prefix(t, "ws://"@) && !has_prefix(t, "wss://"@) {
        if has_prefix(t, "http://"@) {
            lemma_replace_all_last(t, "http://"@, "ws://"@);
        } else if has_prefix(t, "https://"@) {
            lemma_replace_all_last(t, "https://"@, "wss://"@);
        } else {
            assert(v == "ws://"@ + t);
            if t.len() == 0 {
                assert(v.last() == '/');
            } else {
                assert(v.last() == t.last());
            }
        }
    }
    lemma_trim_fixed(v);
}

/// A target that, once trimmed, is a `ws://` or `wss://` URL is accepted
/// exactly when the URL parser accepts it, and then as it is; otherwise the
/// answer is `Invalid URL: ` and the parser's error.
pub proof fn law_websocket_urls_are_parsed(input: Seq<char>)
    ensures
        ({
            let u = trim_spec(input);
            (has_prefix(u, "ws://"@) || has_prefix(u, "wss://"@)) ==> {
                &&& (validated_url(input) is Ok <==> url_parse_failure(u) is None)
                &&& url_parse_failure(u) is None ==> validated_url(input) == Ok::<Seq<char>, Seq<char>>(u)
                &&& url_parse_failure(u) matches Some(e) ==> validated_url(input) == Err::<
                    Seq<char>,
                    Seq<char>,
                >("Invalid URL: "@ + e)
            }
        }),
{
}

/// A target without a WebSocket scheme is always accepted, without asking
/// the parser: an `http://` one with every `http://` turned into `ws://`,
/// an `https://` one with every `https://` turned into `wss://`, and any
/// other with `ws://` put in front.
pub proof fn law_other_targets(input: Seq<char>)
    ensures
        ({
            let u = trim_spec(input);
            !has_prefix(u, "ws://"@) && !has_prefix(u, "wss://"@) ==> {
                &&& has_prefix(u, "http://"@) ==> validated_url(input) == Ok::<Seq<char>, Seq<char>>(
                    replace_all_spec(u, "http://"@, "ws://"@),
                )
                &&& has_prefix(u, "https://"@) ==> validated_url(input) == Ok::<Seq<char>, Seq<char>>(
                    replace_all_spec(u, "https://"@, "wss://"@),
                )
                &&& !has_prefix(u, "http://"@) && !has_prefix(u, "https://"@) ==> validated_url(input)
                    == Ok::<Seq<char>, Seq<char>>("ws://"@ + u)
            }
        }),
{
    reveal_strlit("http://");
    reveal_strlit("https://");
    let u = trim_spec(input);
    if has_prefix(u, "https://"@) {
        assert(u.subrange(0, 7)[4] == 's');
        assert(!has_prefix(u, "http://"@));
    }
}

/// Connections are opened 20 ms apart, except that after every 50th one
/// (not the first) the pause is 2 ms and progress is reported; progress is
/// reported at no other connection.
pub proof fn law_pacing(i: usize)
    ensures
        pacing_spec(i).0 <==> (i > 0 && i % 50 == 0),
        pacing_spec(i).1 == if pacing_spec(i).0 {
            2u64
        } else {
            20u64
        },
{
}

} // verus!
