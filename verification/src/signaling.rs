//! The signaling-server protocol: URL normalisation, the events a server
//! sends, what each request expects back, and how socket frames are handled.

use vstd::prelude::*;
use crate::text::{
    extend_from, find_exec, occurs_at, lemma_find_from_none, lemma_find_from_first,
    lemma_occurs_in_extension, find_from, has_prefix, has_prefix_exec, lemma_find_from_found,
    chars_of, string_of,
};

verus! {

// ---------------------------------------------------------------------------
// URL normalisation
// ---------------------------------------------------------------------------

/// Unicode `White_Space`, the property behind `char::is_whitespace`.
pub open spec fn is_unicode_whitespace(c: char) -> bool {
    let u: u32 = c as u32;
    ||| 0x09 <= u <= 0x0D
    ||| u == 0x20
    ||| u == 0x85
    ||| u == 0xA0
    ||| u == 0x1680
    ||| 0x2000 <= u <= 0x200A
    ||| u == 0x2028
    ||| u == 0x2029
    ||| u == 0x202F
    ||| u == 0x205F
    ||| u == 0x3000
}

/// `s` without its leading whitespace.
pub open spec fn trim_start(s: Seq<char>) -> Seq<char>
    decreases s.len(),
{
    if s.len() > 0 && is_unicode_whitespace(s[0]) {
        trim_start(s.drop_first())
    } else {
        s
    }
}

/// `s` without its trailing whitespace.
pub open spec fn trim_end(s: Seq<char>) -> Seq<char>
    decreases s.len(),
{
    if s.len() > 0 && is_unicode_whitespace(s.last()) {
        trim_end(s.drop_last())
    } else {
        s
    }
}

/// `s` without leading and trailing whitespace (`str::trim`).
pub open spec fn trim(s: Seq<char>) -> Seq<char> {
    trim_end(trim_start(s))
}

pub open spec fn lit_http() -> Seq<char> {
    seq!['h', 't', 't', 'p', ':', '/', '/']
}

pub open spec fn lit_https() -> Seq<char> {
    seq!['h', 't', 't', 'p', 's', ':', '/', '/']
}

pub open spec fn lit_ws() -> Seq<char> {
    seq!['w', 's', ':', '/', '/']
}

pub open spec fn lit_wss() -> Seq<char> {
    seq!['w', 's', 's', ':', '/', '/']
}

pub open spec fn lit_scheme_sep() -> Seq<char> {
    seq![':', '/', '/']
}

pub open spec fn lit_slash() -> Seq<char> {
    seq!['/']
}

/// The URL with its scheme turned into a WebSocket scheme: `http://` becomes
/// `ws://`, `https://` becomes `wss://`, and a URL with neither `ws://` nor
/// `wss://` gets `ws://` in front.
pub open spec fn with_ws_scheme(t: Seq<char>) -> Seq<char> {
    if has_prefix(t, lit_http()) {
        lit_ws() + t.skip(7)
    } else if has_prefix(t, lit_https()) {
        lit_wss() + t.skip(8)
    } else if !has_prefix(t, lit_ws()) && !has_prefix(t, lit_wss()) {
        lit_ws() + t
    } else {
        t
    }
}

/// Where the host part of `u` starts: just after its first `://`.
pub open spec fn scheme_end(u: Seq<char>) -> int {
    find_from(u, lit_scheme_sep(), 0)->0 + 3
}

/// The URL with the `/ws` path filled in: a URL without a path gets `/ws`,
/// one whose path is just `/` gets `ws` after it, any other is kept.
pub open spec fn with_ws_path(u: Seq<char>) -> Seq<char> {
    match find_from(u, lit_slash(), scheme_end(u)) {
        None => u + seq!['/', 'w', 's'],
        Some(idx) => if u.skip(idx) == lit_slash() {
            u + seq!['w', 's']
        } else {
            u
        },
    }
}

/// The WebSocket URL for a signaling server as the user wrote it, or `None`
/// when nothing but whitespace was written.
pub open spec fn normalized_signaling_url(server: Seq<char>) -> Option<Seq<char>> {
    let t = trim(server);
    if t.len() == 0 {
        None
    } else {
        Some(with_ws_path(with_ws_scheme(t)))
    }
}

/// Whether `c` is Unicode whitespace (`char::is_whitespace`).
pub fn is_whitespace(c: char) -> (res: bool)
    ensures
        res == is_unicode_whitespace(c),
{
    let u: u32 = c as u32;
    (0x09 <= u && u <= 0x0D) || u == 0x20 || u == 0x85 || u == 0xA0 || u == 0x1680 || (0x2000
        <= u && u <= 0x200A) || u == 0x2028 || u == 0x2029 || u == 0x202F || u == 0x205F || u
        == 0x3000
}

/// `v` without leading and trailing whitespace.
pub fn trim_chars(v: &Vec<char>) -> (res: Vec<char>)
    ensures
        res@ == trim(v@),
{
    let n: usize = v.len();
    let mut i: usize = 0;
    assert(v@.subrange(0, n as int) =~= v@);
    while i < n && is_whitespace(v[i])
        invariant
            n == v@.len(),
            i <= n,
            trim_start(v@) == trim_start(v@.subrange(i as int, n as int)),
        decreases n - i,
    {
        assert(v@.subrange(i as int, n as int).drop_first() =~= v@.subrange(i + 1, n as int));
        i = i + 1;
    }
    assert(trim_start(v@) == v@.subrange(i as int, n as int)) by {
        if i == n {
            assert(v@.subrange(i as int, n as int) =~= Seq::<char>::empty());
        }
    }
    let mut j: usize = n;
    while j > i && is_whitespace(v[j - 1])
        invariant
            n == v@.len(),
            i <= j <= n,
            trim_start(v@) == v@.subrange(i as int, n as int),
            trim(v@) == trim_end(v@.subrange(i as int, j as int)),
        decreases j,
    {
        assert(v@.subrange(i as int, j as int).drop_last() =~= v@.subrange(i as int, j - 1));
        j = j - 1;
    }
    let mut res: Vec<char> = Vec::new();
    let mut k: usize = i;
    while k < j
        invariant
            n == v@.len(),
            i <= k <= j <= n,
            res@ == v@.subrange(i as int, k as int),
        decreases j - k,
    {
        res.push(v[k]);
        k = k + 1;
        assert(res@ =~= v@.subrange(i as int, k as int));
    }
    res
}

/// In a URL that starts with `ws://` or `wss://`, the first `://` is the one
/// right after the scheme.
proof fn lemma_scheme_sep(u: Seq<char>)
    requires
        has_prefix(u, lit_ws()) || has_prefix(u, lit_wss()),
    ensures
        find_from(u, lit_scheme_sep(), 0) == Some(if has_prefix(u, lit_ws()) { 2int } else { 3int }),
{
    let sep = lit_scheme_sep();
    if has_prefix(u, lit_ws()) {
        assert(u[0] == u.subrange(0, 5)[0]);
        assert(u[1] == u.subrange(0, 5)[1]);
        assert(u.subrange(0, 3)[0] != sep[0]);
        assert(u.subrange(1, 4)[0] != sep[0]);
        assert(u.subrange(2, 5) =~= u.subrange(0, 5).subrange(2, 5));
        assert(u.subrange(2, 5) =~= sep);
        assert(find_from(u, sep, 2) == Some(2int));
        assert(find_from(u, sep, 1) == Some(2int));
    } else {
        assert(u[0] == u.subrange(0, 6)[0]);
        assert(u[1] == u.subrange(0, 6)[1]);
        assert(u[2] == u.subrange(0, 6)[2]);
        assert(u.subrange(0, 3)[0] != sep[0]);
        assert(u.subrange(1, 4)[0] != sep[0]);
        assert(u.subrange(2, 5)[0] != sep[0]);
        assert(u.subrange(3, 6) =~= u.subrange(0, 6).subrange(3, 6));
        assert(u.subrange(3, 6) =~= sep);
        assert(find_from(u, sep, 3) == Some(3int));
        assert(find_from(u, sep, 2) == Some(3int));
        assert(find_from(u, sep, 1) == Some(3int));
    }
}

/// The rewritten scheme is always `ws://` or `wss://`.
proof fn lemma_ws_scheme(t: Seq<char>)
    ensures
        has_prefix(with_ws_scheme(t), lit_ws()) || has_prefix(with_ws_scheme(t), lit_wss()),
{
    let u = with_ws_scheme(t);
    if has_prefix(t, lit_http()) {
        assert(u.subrange(0, 5) =~= lit_ws());
    } else if has_prefix(t, lit_https()) {
        assert(u.subrange(0, 6) =~= lit_wss());
    } else if !has_prefix(t, lit_ws()) && !has_prefix(t, lit_wss()) {
        assert(u.subrange(0, 5) =~= lit_ws());
    }
}

/// Turns the signaling server that the user gave into the WebSocket URL to
/// connect to: whitespace trimmed, `http(s)` mapped to `ws(s)`, a missing
/// scheme taken as `ws://`, and an empty path taken as `/ws`.
pub fn normalize_signaling_url(server: &str) -> (res: Result<String, SignalingError>)
    ensures
        match res {
            Ok(url) => normalized_signaling_url(server@) == Some(url@),
            Err(e) => normalized_signaling_url(server@) is None && e == SignalingError::EmptyServer,
        },
{
    let chars = chars_of(server);
    let t = trim_chars(&chars);
    if t.len() == 0 {
        return Err(SignalingError::EmptyServer);
    }
    let http: Vec<char> = vec!['h', 't', 't', 'p', ':', '/', '/'];
    let https: Vec<char> = vec!['h', 't', 't', 'p', 's', ':', '/', '/'];
    let ws: Vec<char> = vec!['w', 's', ':', '/', '/'];
    let wss: Vec<char> = vec!['w', 's', 's', ':', '/', '/'];
    assert(http@ =~= lit_http());
    assert(https@ =~= lit_https());
    assert(ws@ =~= lit_ws());
    assert(wss@ =~= lit_wss());
    let mut url: Vec<char> = Vec::new();
    if has_prefix_exec(&t, &http) {
        extend_from(&mut url, &ws, 0);
        extend_from(&mut url, &t, 7);
    } else if has_prefix_exec(&t, &https) {
        extend_from(&mut url, &wss, 0);
        extend_from(&mut url, &t, 8);
    } else if !has_prefix_exec(&t, &ws) && !has_prefix_exec(&t, &wss) {
        extend_from(&mut url, &ws, 0);
        extend_from(&mut url, &t, 0);
    } else {
        extend_from(&mut url, &t, 0);
    }
    assert(url@ =~= with_ws_scheme(t@));
    proof {
        lemma_ws_scheme(t@);
        lemma_scheme_sep(url@);
    }
    let sep: Vec<char> = vec![':', '/', '/'];
    assert(sep@ =~= lit_scheme_sep());
    let k: usize = match find_exec(&url, &sep, 0) {
        Some(k) => k,
        None => {
            return Err(SignalingError::InvalidUrl { url: string_of(&url) });
        },
    };
    let start: usize = k + 3;
    let slash: Vec<char> = vec!['/'];
    assert(slash@ =~= lit_slash());
    let ghost u = url@;
    match find_exec(&url, &slash, start) {
        None => {
            url.push('/');
            url.push('w');
            url.push('s');
            assert(url@ =~= u + seq!['/', 'w', 's']);
        },
        Some(idx) => {
            proof {
                lemma_find_from_found(u, lit_slash(), start as int);
                assert(find_from(u, lit_slash(), start as int) == Some(idx as int));
                assert(occurs_at(u, lit_slash(), idx as int));
                assert(u.subrange(idx as int, idx + 1) == lit_slash());
            }
            assert(idx < url.len());
            if idx + 1 == url.len() {
                assert(u.skip(idx as int) =~= u.subrange(idx as int, idx + 1));
                url.push('w');
                url.push('s');
                assert(url@ =~= u + seq!['w', 's']);
            } else {
                assert(u.skip(idx as int).len() != lit_slash().len());
            }
        },
    }
    Ok(string_of(&url))
}

proof fn lemma_trim_start(s: Seq<char>)
    ensures
        trim_start(s).len() > 0 ==> !is_unicode_whitespace(trim_start(s)[0]),
    decreases s.len(),
{
    if s.len() > 0 && is_unicode_whitespace(s[0]) {
        lemma_trim_start(s.drop_first());
    }
}

proof fn lemma_trim_end(s: Seq<char>)
    ensures
        trim_end(s).len() <= s.len(),
        trim_end(s) == s.subrange(0, trim_end(s).len() as int),
        trim_end(s).len() > 0 ==> !is_unicode_whitespace(trim_end(s).last()),
    decreases s.len(),
{
    if s.len() > 0 && is_unicode_whitespace(s.last()) {
        lemma_trim_end(s.drop_last());
        assert(s.drop_last().subrange(0, trim_end(s).len() as int) =~= s.subrange(
            0,
            trim_end(s).len() as int,
        ));
    } else {
        assert(s.subrange(0, s.len() as int) =~= s);
    }
}

/// A trimmed text neither starts nor ends with whitespace.
proof fn lemma_trim_ends(s: Seq<char>)
    ensures
        trim(s).len() > 0 ==> !is_unicode_whitespace(trim(s)[0]) && !is_unicode_whitespace(
            trim(s).last(),
        ),
{
    lemma_trim_start(s);
    lemma_trim_end(trim_start(s));
    if trim(s).len() > 0 {
        assert(trim(s)[0] == trim_start(s).subrange(0, trim(s).len() as int)[0]);
    }
}

/// A text that neither starts nor ends with whitespace is its own trim.
proof fn lemma_trim_fixed(s: Seq<char>)
    requires
        s.len() > 0,
        !is_unicode_whitespace(s[0]),
        !is_unicode_whitespace(s.last()),
    ensures
        trim(s) == s,
{
}

/// A URL with a WebSocket scheme keeps it.
proof fn lemma_ws_scheme_fixed(r: Seq<char>)
    requires
        has_prefix(r, lit_ws()) || has_prefix(r, lit_wss()),
    ensures
        with_ws_scheme(r) == r,
{
    assert(r[0] == r.subrange(0, 5)[0]);
    if has_prefix(r, lit_http()) {
        assert(r[0] == r.subrange(0, 7)[0]);
    }
    if has_prefix(r, lit_https()) {
        assert(r[0] == r.subrange(0, 8)[0]);
    }
}

/// A prefix of `u` is a prefix of every extension of `u`.
proof fn lemma_prefix_extension(u: Seq<char>, w: Seq<char>, p: Seq<char>)
    requires
        has_prefix(u, p),
    ensures
        has_prefix(u + w, p),
{
    assert((u + w).subrange(0, p.len() as int) =~= u.subrange(0, p.len() as int));
}

/// The rewritten scheme of a trimmed, non-empty text ends in a character
/// that is not whitespace.
proof fn lemma_ws_scheme_last(t: Seq<char>)
    requires
        t.len() > 0,
        !is_unicode_whitespace(t.last()),
    ensures
        with_ws_scheme(t).len() > 0,
        !is_unicode_whitespace(with_ws_scheme(t).last()),
{
    let u = with_ws_scheme(t);
    if has_prefix(t, lit_http()) {
        if t.len() > 7 {
            assert(u.last() == t.last());
        } else {
            assert(u.last() == '/');
        }
    } else if has_prefix(t, lit_https()) {
        if t.len() > 8 {
            assert(u.last() == t.last());
        } else {
            assert(u.last() == '/');
        }
    } else if !has_prefix(t, lit_ws()) && !has_prefix(t, lit_wss()) {
        assert(u.last() == t.last());
    }
}

/// Normalisation yields a WebSocket URL, and normalising that URL again
/// changes nothing.
pub proof fn law_normalized_url_is_stable(server: Seq<char>)
    requires
        normalized_signaling_url(server) is Some,
    ensures
        has_prefix(normalized_signaling_url(server)->0, lit_ws()) || has_prefix(
            normalized_signaling_url(server)->0,
            lit_wss(),
        ),
        normalized_signaling_url(normalized_signaling_url(server)->0) == normalized_signaling_url(
            server,
        ),
{
    let t = trim(server);
    let u = with_ws_scheme(t);
    let r = with_ws_path(u);
    lemma_trim_ends(server);
    lemma_ws_scheme(t);
    lemma_ws_scheme_last(t);
    lemma_scheme_sep(u);
    let se = scheme_end(u);
    let slash = lit_slash();
    assert(u.len() >= se) by {
        if has_prefix(u, lit_ws()) {
        } else {
        }
    }
    // The path part of `r`, and what it shares with `u`.
    match find_from(u, slash, se) {
        None => {
            let w = seq!['/', 'w', 's'];
            assert(r == u + w);
            if has_prefix(u, lit_ws()) {
                lemma_prefix_extension(u, w, lit_ws());
            } else {
                lemma_prefix_extension(u, w, lit_wss());
            }
            if has_prefix(r, lit_ws()) && !has_prefix(u, lit_ws()) {
                assert(r.subrange(0, 5)[2] == u.subrange(0, 6)[2]);
            }
            lemma_scheme_sep(r);
            assert(scheme_end(r) == se);
            assert forall|j: int| se <= j < u.len() implies !occurs_at(r, slash, j) by {
                lemma_find_from_none(u, slash, se, j);
                lemma_occurs_in_extension(u, w, slash, j);
            }
            assert(r.subrange(u.len() as int, u.len() + 1int) =~= slash);
            lemma_find_from_first(r, slash, se, u.len() as int);
            assert(r.skip(u.len() as int).len() != slash.len());
            assert(with_ws_path(r) == r);
        },
        Some(idx) => {
            lemma_find_from_found(u, slash, se);
            if u.skip(idx) == slash {
                let w = seq!['w', 's'];
                assert(r == u + w);
                if has_prefix(u, lit_ws()) {
                    lemma_prefix_extension(u, w, lit_ws());
                } else {
                    lemma_prefix_extension(u, w, lit_wss());
                }
                if has_prefix(r, lit_ws()) && !has_prefix(u, lit_ws()) {
                    assert(r.subrange(0, 5)[2] == u.subrange(0, 6)[2]);
                }
                lemma_scheme_sep(r);
                assert(scheme_end(r) == se);
                assert forall|j: int| se <= j < idx implies !occurs_at(r, slash, j) by {
                    lemma_occurs_in_extension(u, w, slash, j);
                }
                lemma_occurs_in_extension(u, w, slash, idx);
                lemma_find_from_first(r, slash, se, idx);
                assert(r.skip(idx).len() != slash.len());
                assert(with_ws_path(r) == r);
            } else {
                assert(r == u);
            }
        },
    }
    lemma_ws_scheme_fixed(r);
    assert(r.len() > 0);
    assert(r[0] == 'w') by {
        if has_prefix(u, lit_ws()) {
            assert(u[0] == u.subrange(0, 5)[0]);
        } else {
            assert(u[0] == u.subrange(0, 6)[0]);
        }
        assert(r[0] == u[0]);
    }
    assert(!is_unicode_whitespace(r.last()));
    lemma_trim_fixed(r);
}

/// Where the host part of a URL with a WebSocket scheme starts.
pub open spec fn host_start(u: Seq<char>) -> int {
    if has_prefix(u, lit_ws()) {
        5
    } else {
        6
    }
}

/// A URL with a WebSocket scheme and no surrounding whitespace is its own
/// trim and keeps its scheme; its first `://` ends the scheme.
proof fn lemma_websocket_url_parts(u: Seq<char>)
    requires
        has_prefix(u, lit_ws()) || has_prefix(u, lit_wss()),
        !is_unicode_whitespace(u.last()),
    ensures
        u.len() >= host_start(u),
        trim(u) == u,
        with_ws_scheme(u) == u,
        scheme_end(u) == host_start(u),
{
    if has_prefix(u, lit_ws()) {
        assert(u[0] == u.subrange(0, 5)[0]);
    } else {
        assert(u[0] == u.subrange(0, 6)[0]);
    }
    lemma_trim_fixed(u);
    lemma_ws_scheme_fixed(u);
    lemma_scheme_sep(u);
}

proof fn lemma_slash_at(u: Seq<char>, j: int)
    requires
        0 <= j < u.len(),
    ensures
        occurs_at(u, lit_slash(), j) <==> u[j] == '/',
{
    if u[j] == '/' {
        assert(u.subrange(j, j + 1) =~= lit_slash());
    } else {
        assert(u.subrange(j, j + 1)[0] != lit_slash()[0]);
    }
}

/// A WebSocket URL whose path is more than a bare `/` is kept as it is.
pub proof fn law_websocket_url_with_path_kept(u: Seq<char>, slash_at: int)
    requires
        has_prefix(u, lit_ws()) || has_prefix(u, lit_wss()),
        !is_unicode_whitespace(u.last()),
        host_start(u) <= slash_at < u.len() - 1,
        u[slash_at] == '/',
    ensures
        normalized_signaling_url(u) == Some(u),
{
    lemma_websocket_url_parts(u);
    let se = host_start(u);
    lemma_slash_at(u, slash_at);
    if find_from(u, lit_slash(), se) is None {
        lemma_find_from_none(u, lit_slash(), se, slash_at);
    }
    lemma_find_from_found(u, lit_slash(), se);
    let f = find_from(u, lit_slash(), se)->0;
    assert(f <= slash_at);
    assert(u.skip(f).len() != lit_slash().len());
}

/// A WebSocket URL whose path is a bare `/` gets `ws` after it.
pub proof fn law_websocket_url_root_path(u: Seq<char>)
    requires
        has_prefix(u, lit_ws()) || has_prefix(u, lit_wss()),
        u.len() > host_start(u),
        u.last() == '/',
        forall|j: int| host_start(u) <= j < u.len() - 1 ==> u[j] != '/',
    ensures
        normalized_signaling_url(u) == Some(u + seq!['w', 's']),
{
    lemma_websocket_url_parts(u);
    let se = host_start(u);
    let n = u.len() - 1;
    assert forall|j: int| se <= j < n implies !occurs_at(u, lit_slash(), j) by {
        lemma_slash_at(u, j);
    }
    lemma_slash_at(u, n);
    lemma_find_from_first(u, lit_slash(), se, n);
    assert(u.skip(n) =~= lit_slash());
}

/// A WebSocket URL without a path gets the path `/ws`.
pub proof fn law_websocket_url_without_path(u: Seq<char>)
    requires
        has_prefix(u, lit_ws()) || has_prefix(u, lit_wss()),
        !is_unicode_whitespace(u.last()),
        forall|j: int| host_start(u) <= j < u.len() ==> u[j] != '/',
    ensures
        normalized_signaling_url(u) == Some(u + seq!['/', 'w', 's']),
{
    lemma_websocket_url_parts(u);
    let se = host_start(u);
    assert forall|j: int| se <= j implies !occurs_at(u, lit_slash(), j) by {
        if j < u.len() {
            lemma_slash_at(u, j);
        }
    }
    if find_from(u, lit_slash(), se) is Some {
        lemma_find_from_found(u, lit_slash(), se);
    }
}

// ---------------------------------------------------------------------------
// Events, replies and frames
// ---------------------------------------------------------------------------

/// An event that a signaling server sends.
#[derive(Debug)]
pub enum SignalEvent {
    /// A room was opened for the host.
    RoomCreated { room_id: String },
    /// The offer of the host of the room that was joined.
    RoomOffer { from_id: String, offer: String },
    /// The answer of a player to the host's offer.
    PlayerAnswer { from_id: String, answer: String },
    /// An ICE candidate of the other side.
    IceCandidate { from_id: String, candidate: String },
    /// A client joined the host's room.
    PeerJoined { client_id: String },
    /// A client left the host's room.
    PeerLeft { client_id: String },
    /// The server reports an error.
    Error { message: String },
}

/// The request that an unexpected event answered.
#[derive(PartialEq, Eq, Structural, Debug)]
pub enum SignalingStage {
    CreatingRoom,
    JoiningRoom,
}

/// Why a signaling exchange failed.
pub enum SignalingError {
    /// The signaling server given was empty.
    EmptyServer,
    /// The URL has no `://` after all.
    InvalidUrl { url: String },
    /// The server answered with an error.
    Server { message: String },
    /// The server answered with an event that does not answer the request.
    UnexpectedEvent { stage: SignalingStage, event: SignalEvent },
    /// The socket was closed before an event came.
    SocketClosed,
}

/// What the answer to a create-room request yields: the room's id.
pub fn create_room_reply(event: SignalEvent) -> (res: Result<String, SignalingError>)
    ensures
        match event {
            SignalEvent::RoomCreated { room_id } => res == Ok::<String, SignalingError>(room_id),
            SignalEvent::Error { message } => res == Err::<String, SignalingError>(
                SignalingError::Server { message },
            ),
            _ => res == Err::<String, SignalingError>(
                SignalingError::UnexpectedEvent { stage: SignalingStage::CreatingRoom, event },
            ),
        },
{
    match event {
        SignalEvent::RoomCreated { room_id } => Ok(room_id),
        SignalEvent::Error { message } => Err(SignalingError::Server { message }),
        event => Err(
            SignalingError::UnexpectedEvent { stage: SignalingStage::CreatingRoom, event },
        ),
    }
}

/// What the answer to a join-room request yields: the host's offer.
pub fn join_room_reply(event: SignalEvent) -> (res: Result<String, SignalingError>)
    ensures
        match event {
            SignalEvent::RoomOffer { from_id, offer } => res == Ok::<String, SignalingError>(offer),
            SignalEvent::Error { message } => res == Err::<String, SignalingError>(
                SignalingError::Server { message },
            ),
            _ => res == Err::<String, SignalingError>(
                SignalingError::UnexpectedEvent { stage: SignalingStage::JoiningRoom, event },
            ),
        },
{
    match event {
        SignalEvent::RoomOffer { from_id: _, offer } => Ok(offer),
        SignalEvent::Error { message } => Err(SignalingError::Server { message }),
        event => Err(
            SignalingError::UnexpectedEvent { stage: SignalingStage::JoiningRoom, event },
        ),
    }
}

/// A frame read from the signaling socket.
pub enum SocketFrame {
    Text(String),
    Binary(Vec<u8>),
    Ping(Vec<u8>),
    Pong(Vec<u8>),
    Close,
    Raw,
}

/// What to do with what the socket gave while waiting for an event.
pub enum ReceiveStep {
    /// Parse this text as an event and return it.
    Parse(String),
    /// Send this frame back and keep waiting.
    Reply(SocketFrame),
    /// Keep waiting.
    Skip,
    /// Give up with this error.
    Fail(SignalingError),
}

/// One step of waiting for a signaling event: `None` means the socket ended.
pub fn receive_step(frame: Option<SocketFrame>) -> (res: ReceiveStep)
    ensures
        match frame {
            None => res == ReceiveStep::Fail(SignalingError::SocketClosed),
            Some(SocketFrame::Text(text)) => res == ReceiveStep::Parse(text),
            Some(SocketFrame::Close) => res == ReceiveStep::Fail(SignalingError::SocketClosed),
            Some(SocketFrame::Ping(payload)) => res == ReceiveStep::Reply(SocketFrame::Pong(payload)),
            Some(_) => res == ReceiveStep::Skip,
        },
{
    match frame {
        None => ReceiveStep::Fail(SignalingError::SocketClosed),
        Some(SocketFrame::Text(text)) => ReceiveStep::Parse(text),
        Some(SocketFrame::Close) => ReceiveStep::Fail(SignalingError::SocketClosed),
        Some(SocketFrame::Ping(payload)) => ReceiveStep::Reply(SocketFrame::Pong(payload)),
        Some(_) => ReceiveStep::Skip,
    }
}

} // verus!
