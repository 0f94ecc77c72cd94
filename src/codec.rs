use vstd::prelude::*;
use crate::search::{first_from, is_first_from, lemma_first_from_cases, lemma_first_from_is};
use crate::text::text_eq;

verus! {

/// Unicode `White_Space`: the characters that `\s` matches and that trimming removes.
pub open spec fn is_ws(c: char) -> bool {
    let u = c as u32;
    (0x09 <= u && u <= 0x0D) || u == 0x20 || u == 0x85 || u == 0xA0 || u == 0x1680 || (0x2000
        <= u && u <= 0x200A) || u == 0x2028 || u == 0x2029 || u == 0x202F || u == 0x205F || u
        == 0x3000
}

pub open spec fn not_ws() -> spec_fn(char) -> bool {
    |c: char| !is_ws(c)
}

pub open spec fn is_char(x: char) -> spec_fn(char) -> bool {
    |c: char| c == x
}

pub open spec fn is_set() -> spec_fn(bool) -> bool {
    |b: bool| b
}

/// The field separator `", "` starts at `i`.
pub open spec fn sep_at(s: Seq<char>, i: int) -> bool {
    0 <= i && i + 1 < s.len() && s[i] == ',' && s[i + 1] == ' '
}

pub open spec fn sep_flags(s: Seq<char>) -> Seq<bool> {
    Seq::new(s.len(), |i: int| sep_at(s, i))
}

/// Where the first separator starts, or the length of `s` where there is none.
pub open spec fn first_sep(s: Seq<char>) -> int {
    first_from(sep_flags(s), 0, is_set())
}

pub open spec fn no_char(s: Seq<char>, c: char) -> bool {
    forall|i: int| 0 <= i < s.len() ==> #[trigger] s[i] != c
}

pub open spec fn trim_start(s: Seq<char>) -> Seq<char>
    decreases s.len(),
{
    if s.len() > 0 && is_ws(s[0]) {
        trim_start(s.drop_first())
    } else {
        s
    }
}

pub open spec fn trim_end(s: Seq<char>) -> Seq<char>
    decreases s.len(),
{
    if s.len() > 0 && is_ws(s.last()) {
        trim_end(s.drop_last())
    } else {
        s
    }
}

/// `s` without its leading and trailing white space.
pub open spec fn trim(s: Seq<char>) -> Seq<char> {
    trim_end(trim_start(s))
}

/// The first three parts of `s` split on `", "`, the third holding the rest;
/// `None` where `s` has fewer than two separators.
pub open spec fn split3(s: Seq<char>) -> Option<(Seq<char>, Seq<char>, Seq<char>)> {
    let i = first_sep(s);
    if i < s.len() {
        let rest = s.subrange(i + 2, s.len() as int);
        let j = first_sep(rest);
        if j < rest.len() {
            Some((s.subrange(0, i), rest.subrange(0, j), rest.subrange(j + 2, rest.len() as int)))
        } else {
            None
        }
    } else {
        None
    }
}

/// The command and payload of a text that matches `^\(([^,]+),\s*\((.*)\)\)$`.
pub open spec fn bracket_parts(s: Seq<char>) -> Option<(Seq<char>, Seq<char>)> {
    let n = s.len() as int;
    if n > 0 && s[0] == '(' {
        let k = first_from(s, 1, is_char(','));
        if 2 <= k < n {
            let j = first_from(s, k + 1, not_ws());
            if j + 3 <= n && s[j] == '(' && s[n - 2] == ')' && s[n - 1] == ')' && no_char(
                s.subrange(j + 1, n - 2),
                '\n',
            ) {
                Some((s.subrange(1, k), s.subrange(j + 1, n - 2)))
            } else {
                None
            }
        } else {
            None
        }
    } else {
        None
    }
}

/// The tag, command and field list of a text `(TAG, COMMAND(FIELDS))`.
pub open spec fn tagged_parts(s: Seq<char>) -> Option<(Seq<char>, Seq<char>, Seq<char>)> {
    let n = s.len() as int;
    if n >= 2 && s[0] == '(' && s[n - 1] == ')' {
        let inner = s.subrange(1, n - 1);
        let i = first_sep(inner);
        if i < inner.len() {
            let rest = inner.subrange(i + 2, inner.len() as int);
            let p = first_from(rest, 0, is_char('('));
            if 1 <= p && p + 2 <= rest.len() && rest.last() == ')' {
                Some((inner.subrange(0, i), rest.subrange(0, p), rest.subrange(p + 1, rest.len() - 1)))
            } else {
                None
            }
        } else {
            None
        }
    } else {
        None
    }
}

/// A protocol message.
#[derive(Debug, PartialEq, Eq)]
pub enum Message {
    /// A client presents its identity, in the form
    /// `(InitPlayerConnection, (id, username, email))`, or with a sender tag
    /// in front, `(tag, InitPlayerConnection(id, username, email))`.
    InitPlayerConnection { tag: Option<String>, id: String, username: String, email: String },
    /// `(PacketAllStates, (json))`: the client's game states as a JSON object.
    PacketAllStates { payload: String },
    /// `(PacketHeartBeat, (json))`: a liveness packet as a JSON object.
    PacketHeartBeat { payload: String },
    /// `(REQUEST_FULL_MAP_SETS, ())`.
    RequestFullMapSets,
    /// `(player_id, RunTrigger(trigger_name))`, broadcast by the host.
    RunTrigger { player_id: String, trigger_name: String },
    /// `(player_id_client, SyncExistingPlayerId(player_id_host))`, broadcast by the host.
    SyncExistingPlayerId { player_id_client: String, player_id_host: String },
    /// The bare status text `StateGameConnection::Online`.
    StateGameConnectionOnline,
}

pub enum MessageView {
    InitPlayerConnection {
        tag: Option<Seq<char>>,
        id: Seq<char>,
        username: Seq<char>,
        email: Seq<char>,
    },
    PacketAllStates { payload: Seq<char> },
    PacketHeartBeat { payload: Seq<char> },
    RequestFullMapSets,
    RunTrigger { player_id: Seq<char>, trigger_name: Seq<char> },
    SyncExistingPlayerId { player_id_client: Seq<char>, player_id_host: Seq<char> },
    StateGameConnectionOnline,
}

impl View for Message {
    type V = MessageView;

    open spec fn view(&self) -> MessageView {
        match self {
            Message::InitPlayerConnection { tag, id, username, email } => {
                MessageView::InitPlayerConnection {
                    tag: match tag {
                        Some(t) => Some(t@),
                        None => None,
                    },
                    id: id@,
                    username: username@,
                    email: email@,
                }
            },
            Message::PacketAllStates { payload } => MessageView::PacketAllStates {
                payload: payload@,
            },
            Message::PacketHeartBeat { payload } => MessageView::PacketHeartBeat {
                payload: payload@,
            },
            Message::RequestFullMapSets => MessageView::RequestFullMapSets,
            Message::RunTrigger { player_id, trigger_name } => MessageView::RunTrigger {
                player_id: player_id@,
                trigger_name: trigger_name@,
            },
            Message::SyncExistingPlayerId { player_id_client, player_id_host } => {
                MessageView::SyncExistingPlayerId {
                    player_id_client: player_id_client@,
                    player_id_host: player_id_host@,
                }
            },
            Message::StateGameConnectionOnline => MessageView::StateGameConnectionOnline,
        }
    }
}

/// Why a text is not a message.
#[derive(PartialEq, Eq, Structural, Debug, Clone, Copy)]
pub enum DecodeError {
    /// The text has neither of the two message shapes.
    Malformed,
    /// The shape is right but the command is not one of the protocol's.
    UnknownCommand,
    /// The command is known but its field list has the wrong number of fields.
    FieldCount,
    /// The bytes are neither a binary envelope around a string nor UTF-8 text.
    Unreadable,
}

pub open spec fn init_fields(tag: Option<Seq<char>>, fields: Seq<char>) -> Result<MessageView, DecodeError> {
    match split3(fields) {
        Some((a, b, c)) => Ok(
            MessageView::InitPlayerConnection { tag, id: trim(a), username: trim(b), email: trim(c) },
        ),
        None => Err(DecodeError::FieldCount),
    }
}

pub open spec fn bracket_command(cmd: Seq<char>, payload: Seq<char>) -> Result<MessageView, DecodeError> {
    if cmd == "InitPlayerConnection"@ {
        init_fields(None, payload)
    } else if cmd == "PacketAllStates"@ {
        Ok(MessageView::PacketAllStates { payload })
    } else if cmd == "PacketHeartBeat"@ {
        Ok(MessageView::PacketHeartBeat { payload })
    } else if cmd == "REQUEST_FULL_MAP_SETS"@ {
        if payload.len() == 0 {
            Ok(MessageView::RequestFullMapSets)
        } else {
            Err(DecodeError::FieldCount)
        }
    } else {
        Err(DecodeError::UnknownCommand)
    }
}

pub open spec fn tagged_command(tag: Seq<char>, cmd: Seq<char>, fields: Seq<char>) -> Result<MessageView, DecodeError> {
    if cmd == "InitPlayerConnection"@ {
        init_fields(Some(tag), fields)
    } else if cmd == "RunTrigger"@ {
        Ok(MessageView::RunTrigger { player_id: tag, trigger_name: fields })
    } else if cmd == "SyncExistingPlayerId"@ {
        Ok(MessageView::SyncExistingPlayerId { player_id_client: tag, player_id_host: fields })
    } else {
        Err(DecodeError::UnknownCommand)
    }
}

/// The message a text stands for: the status text itself, else the bracket
/// shape, else the tagged shape.
pub open spec fn decode_spec(s: Seq<char>) -> Result<MessageView, DecodeError> {
    if s == "StateGameConnection::Online"@ {
        Ok(MessageView::StateGameConnectionOnline)
    } else {
        match bracket_parts(s) {
            Some((cmd, payload)) => bracket_command(cmd, payload),
            None => match tagged_parts(s) {
                Some((tag, cmd, fields)) => tagged_command(tag, cmd, fields),
                None => Err(DecodeError::Malformed),
            },
        }
    }
}

pub open spec fn init_field_list(id: Seq<char>, username: Seq<char>, email: Seq<char>) -> Seq<char> {
    id + ", "@ + username + ", "@ + email
}

/// The text of a message.
pub open spec fn encode_spec(m: MessageView) -> Seq<char> {
    match m {
        MessageView::InitPlayerConnection { tag, id, username, email } => match tag {
            None => "(InitPlayerConnection, ("@ + init_field_list(id, username, email) + "))"@,
            Some(t) => "("@ + t + ", InitPlayerConnection("@ + init_field_list(id, username, email)
                + "))"@,
        },
        MessageView::PacketAllStates { payload } => "(PacketAllStates, ("@ + payload + "))"@,
        MessageView::PacketHeartBeat { payload } => "(PacketHeartBeat, ("@ + payload + "))"@,
        MessageView::RequestFullMapSets => "(REQUEST_FULL_MAP_SETS, ())"@,
        MessageView::RunTrigger { player_id, trigger_name } => "("@ + player_id + ", RunTrigger("@
            + trigger_name + "))"@,
        MessageView::SyncExistingPlayerId { player_id_client, player_id_host } => "("@
            + player_id_client + ", SyncExistingPlayerId("@ + player_id_host + "))"@,
        MessageView::StateGameConnectionOnline => "StateGameConnection::Online"@,
    }
}

/// A field that reads back as itself: no line break, and nothing for
/// trimming to remove.
pub open spec fn plain_field(f: Seq<char>) -> bool {
    no_char(f, '\n') && (f.len() > 0 ==> !is_ws(f[0]) && !is_ws(f.last()))
}

/// `s` holds no field separator `", "`.
pub open spec fn no_sep(s: Seq<char>) -> bool {
    forall|j: int| !#[trigger] sep_at(s, j)
}

/// A tag that reads back as itself: no separator, and either no comma or no
/// opening parenthesis (so that it cannot pass for the bracket shape).
pub open spec fn plain_tag(t: Seq<char>) -> bool {
    no_sep(t) && (no_char(t, ',') || no_char(t, '('))
}

/// A message whose text decodes back to it: tags are plain, init fields are
/// plain and all but the last hold no separator, and JSON payloads hold no
/// line break.
pub open spec fn well_formed(m: MessageView) -> bool {
    match m {
        MessageView::InitPlayerConnection { tag, id, username, email } => {
            &&& plain_field(id) && no_sep(id)
            &&& plain_field(username) && no_sep(username)
            &&& plain_field(email)
            &&& (tag matches Some(t) ==> plain_tag(t))
        },
        MessageView::PacketAllStates { payload } => no_char(payload, '\n'),
        MessageView::PacketHeartBeat { payload } => no_char(payload, '\n'),
        MessageView::RunTrigger { player_id, trigger_name } => plain_tag(player_id),
        MessageView::SyncExistingPlayerId { player_id_client, player_id_host } => plain_tag(
            player_id_client,
        ),
        _ => true,
    }
}

fn is_ws_char(c: char) -> (r: bool)
    ensures
        r == is_ws(c),
{
    let u = c as u32;
    (0x09 <= u && u <= 0x0D) || u == 0x20 || u == 0x85 || u == 0xA0 || u == 0x1680 || (0x2000
        <= u && u <= 0x200A) || u == 0x2028 || u == 0x2029 || u == 0x202F || u == 0x205F || u
        == 0x3000
}

/// The first position at or after `from` that holds `c`, or the length.
fn find_char(s: &str, from: usize, c: char) -> (r: usize)
    requires
        from <= s@.len(),
    ensures
        r == first_from(s@, from as int, is_char(c)),
{
    let n = s.unicode_len();
    let mut i = from;
    while i < n
        invariant
            n == s@.len(),
            from <= i <= n,
            forall|j: int| from <= j < i ==> !is_char(c)(#[trigger] s@[j]),
        decreases n - i,
    {
        if s.get_char(i) == c {
            proof { lemma_first_from_is(s@, from as int, is_char(c), i as int); }
            return i;
        }
        i += 1;
    }
    proof { crate::search::lemma_first_from_none(s@, from as int, is_char(c)); }
    n
}

/// The first position at or after `from` that holds no white space, or the length.
fn skip_ws(s: &str, from: usize) -> (r: usize)
    requires
        from <= s@.len(),
    ensures
        r == first_from(s@, from as int, not_ws()),
{
    let n = s.unicode_len();
    let mut i = from;
    while i < n
        invariant
            n == s@.len(),
            from <= i <= n,
            forall|j: int| from <= j < i ==> !not_ws()(#[trigger] s@[j]),
        decreases n - i,
    {
        if !is_ws_char(s.get_char(i)) {
            proof { lemma_first_from_is(s@, from as int, not_ws(), i as int); }
            return i;
        }
        i += 1;
    }
    proof { crate::search::lemma_first_from_none(s@, from as int, not_ws()); }
    n
}

/// Where the first `", "` starts, or the length.
fn find_sep(s: &str) -> (r: usize)
    ensures
        r == first_sep(s@),
{
    let n = s.unicode_len();
    let ghost f = sep_flags(s@);
    let mut i: usize = 0;
    while i < n
        invariant
            n == s@.len() == f.len(),
            f == sep_flags(s@),
            i <= n,
            forall|j: int| 0 <= j < i ==> !is_set()(#[trigger] f[j]),
        decreases n - i,
    {
        if i + 1 < n && s.get_char(i) == ',' && s.get_char(i + 1) == ' ' {
            assert(f[i as int]);
            proof { lemma_first_from_is(f, 0, is_set(), i as int); }
            return i;
        }
        assert(!f[i as int]);
        i += 1;
    }
    proof { crate::search::lemma_first_from_none(f, 0, is_set()); }
    n
}

/// Whether no position in `lo..hi` holds a line break.
fn no_newline(s: &str, lo: usize, hi: usize) -> (r: bool)
    requires
        lo <= hi <= s@.len(),
    ensures
        r == no_char(s@.subrange(lo as int, hi as int), '\n'),
{
    let mut i = lo;
    while i < hi
        invariant
            lo <= i <= hi <= s@.len(),
            forall|j: int| lo <= j < i ==> #[trigger] s@[j] != '\n',
        decreases hi - i,
    {
        if s.get_char(i) == '\n' {
            assert(s@.subrange(lo as int, hi as int)[i - lo] == '\n');
            return false;
        }
        i += 1;
    }
    assert forall|j: int| 0 <= j < hi - lo implies #[trigger] s@.subrange(
        lo as int,
        hi as int,
    )[j] != '\n' by {
        assert(s@.subrange(lo as int, hi as int)[j] == s@[lo + j]);
    }
    true
}

/// `s` without leading and trailing white space.
pub fn trim_text(s: &str) -> (r: String)
    ensures
        r@ == trim(s@),
{
    let n = s.unicode_len();
    let mut lo: usize = 0;
    assert(s@.subrange(0, n as int) =~= s@);
    while lo < n && is_ws_char(s.get_char(lo))
        invariant
            n == s@.len(),
            lo <= n,
            trim_start(s@) == trim_start(s@.subrange(lo as int, n as int)),
        decreases n - lo,
    {
        assert(s@.subrange(lo as int, n as int).drop_first() =~= s@.subrange(lo + 1, n as int));
        lo += 1;
    }
    let ghost t = s@.subrange(lo as int, n as int);
    assert(trim_start(t) == t);
    let mut hi: usize = n;
    while hi > lo && is_ws_char(s.get_char(hi - 1))
        invariant
            n == s@.len(),
            lo <= hi <= n,
            t == s@.subrange(lo as int, n as int),
            trim_start(s@) == t,
            trim_end(t) == trim_end(s@.subrange(lo as int, hi as int)),
        decreases hi - lo,
    {
        assert(s@.subrange(lo as int, hi as int).drop_last() =~= s@.subrange(lo as int, hi - 1));
        hi -= 1;
    }
    String::from_str(s.substring_char(lo, hi))
}

/// The three parts of `s` split on `", "` at most twice.
pub fn split_three(s: &str) -> (r: Option<(String, String, String)>)
    ensures
        match split3(s@) {
            Some((a, b, c)) => r matches Some(t) && t.0@ == a && t.1@ == b && t.2@ == c,
            None => r is None,
        },
{
    let n = s.unicode_len();
    let i = find_sep(s);
    if i >= n {
        return None;
    }
    proof {
        lemma_first_from_cases(sep_flags(s@), 0, is_set());
    }
    let rest = s.substring_char(i + 2, n);
    let m = rest.unicode_len();
    let j = find_sep(rest);
    if j >= m {
        return None;
    }
    proof {
        lemma_first_from_cases(sep_flags(rest@), 0, is_set());
    }
    Some(
        (
            String::from_str(s.substring_char(0, i)),
            String::from_str(rest.substring_char(0, j)),
            String::from_str(rest.substring_char(j + 2, m)),
        ),
    )
}


/// The command and payload of `s` where it matches the bracket pattern.
fn split_bracket(s: &str) -> (r: Option<(String, String)>)
    ensures
        match bracket_parts(s@) {
            Some((a, b)) => r matches Some(t) && t.0@ == a && t.1@ == b,
            None => r is None,
        },
{
    let n = s.unicode_len();
    if n == 0 || s.get_char(0) != '(' {
        return None;
    }
    let k = find_char(s, 1, ',');
    if k < 2 || k >= n {
        return None;
    }
    let j = skip_ws(s, k + 1);
    if n < 3 || j > n - 3 {
        return None;
    }
    if s.get_char(j) != '(' || s.get_char(n - 2) != ')' || s.get_char(n - 1) != ')' {
        return None;
    }
    if !no_newline(s, j + 1, n - 2) {
        return None;
    }
    Some((String::from_str(s.substring_char(1, k)), String::from_str(s.substring_char(j + 1, n - 2))))
}

/// The tag, command and field list of `s` where it has the tagged shape.
fn split_tagged(s: &str) -> (r: Option<(String, String, String)>)
    ensures
        match tagged_parts(s@) {
            Some((a, b, c)) => r matches Some(t) && t.0@ == a && t.1@ == b && t.2@ == c,
            None => r is None,
        },
{
    let n = s.unicode_len();
    if n < 2 || s.get_char(0) != '(' || s.get_char(n - 1) != ')' {
        return None;
    }
    let inner = s.substring_char(1, n - 1);
    let len = inner.unicode_len();
    let i = find_sep(inner);
    if i >= len {
        return None;
    }
    proof {
        lemma_first_from_cases(sep_flags(inner@), 0, is_set());
    }
    let rest = inner.substring_char(i + 2, len);
    let m = rest.unicode_len();
    let p = find_char(rest, 0, '(');
    if p < 1 || m < 2 || p > m - 2 {
        return None;
    }
    if rest.get_char(m - 1) != ')' {
        return None;
    }
    Some(
        (
            String::from_str(inner.substring_char(0, i)),
            String::from_str(rest.substring_char(0, p)),
            String::from_str(rest.substring_char(p + 1, m - 1)),
        ),
    )
}

fn decode_init(tag: Option<String>, fields: &str) -> (r: Result<Message, DecodeError>)
    ensures
        r matches Ok(m) ==> init_fields(
            match tag {
                Some(t) => Some(t@),
                None => None,
            },
            fields@,
        ) == Ok::<MessageView, DecodeError>(m@),
        r matches Err(e) ==> init_fields(
            match tag {
                Some(t) => Some(t@),
                None => None,
            },
            fields@,
        ) == Err::<MessageView, DecodeError>(e),
{
    match split_three(fields) {
        Some((a, b, c)) => Ok(
            Message::InitPlayerConnection {
                tag,
                id: trim_text(a.as_str()),
                username: trim_text(b.as_str()),
                email: trim_text(c.as_str()),
            },
        ),
        None => Err(DecodeError::FieldCount),
    }
}

/// Reads a message from its text. The status text is tried first, then the
/// bracket shape `(COMMAND, (PAYLOAD))`, then the tagged shape
/// `(TAG, COMMAND(FIELDS))`.
pub fn decode_text(s: &str) -> (r: Result<Message, DecodeError>)
    ensures
        r matches Ok(m) ==> decode_spec(s@) == Ok::<MessageView, DecodeError>(m@),
        r matches Err(e) ==> decode_spec(s@) == Err::<MessageView, DecodeError>(e),
{
    if text_eq(s, "StateGameConnection::Online") {
        return Ok(Message::StateGameConnectionOnline);
    }
    match split_bracket(s) {
        Some((cmd, payload)) => {
            let c = cmd.as_str();
            if text_eq(c, "InitPlayerConnection") {
                decode_init(None, payload.as_str())
            } else if text_eq(c, "PacketAllStates") {
                Ok(Message::PacketAllStates { payload })
            } else if text_eq(c, "PacketHeartBeat") {
                Ok(Message::PacketHeartBeat { payload })
            } else if text_eq(c, "REQUEST_FULL_MAP_SETS") {
                if payload.as_str().unicode_len() == 0 {
                    Ok(Message::RequestFullMapSets)
                } else {
                    Err(DecodeError::FieldCount)
                }
            } else {
                Err(DecodeError::UnknownCommand)
            }
        },
        None => match split_tagged(s) {
            Some((tag, cmd, fields)) => {
                let c = cmd.as_str();
                if text_eq(c, "InitPlayerConnection") {
                    decode_init(Some(tag), fields.as_str())
                } else if text_eq(c, "RunTrigger") {
                    Ok(Message::RunTrigger { player_id: tag, trigger_name: fields })
                } else if text_eq(c, "SyncExistingPlayerId") {
                    Ok(Message::SyncExistingPlayerId { player_id_client: tag, player_id_host: fields })
                } else {
                    Err(DecodeError::UnknownCommand)
                }
            },
            None => Err(DecodeError::Malformed),
        },
    }
}

fn append_init_fields(out: &mut String, id: &String, username: &String, email: &String)
    ensures
        final(out)@ == old(out)@ + init_field_list(id@, username@, email@),
{
    out.append(id.as_str());
    out.append(", ");
    out.append(username.as_str());
    out.append(", ");
    out.append(email.as_str());
    assert(final(out)@ =~= old(out)@ + init_field_list(id@, username@, email@));
}

/// Writes a message as text.
pub fn encode_text(m: &Message) -> (r: String)
    ensures
        r@ == encode_spec(m@),
{
    match m {
        Message::InitPlayerConnection { tag, id, username, email } => match tag {
            None => {
                let mut out = String::from_str("(InitPlayerConnection, (");
                append_init_fields(&mut out, id, username, email);
                out.append("))");
                out
            },
            Some(t) => {
                let mut out = String::from_str("(");
                out.append(t.as_str());
                out.append(", InitPlayerConnection(");
                append_init_fields(&mut out, id, username, email);
                out.append("))");
                out
            },
        },
        Message::PacketAllStates { payload } => {
            let mut out = String::from_str("(PacketAllStates, (");
            out.append(payload.as_str());
            out.append("))");
            out
        },
        Message::PacketHeartBeat { payload } => {
            let mut out = String::from_str("(PacketHeartBeat, (");
            out.append(payload.as_str());
            out.append("))");
            out
        },
        Message::RequestFullMapSets => String::from_str("(REQUEST_FULL_MAP_SETS, ())"),
        Message::RunTrigger { player_id, trigger_name } => {
            let mut out = String::from_str("(");
            out.append(player_id.as_str());
            out.append(", RunTrigger(");
            out.append(trigger_name.as_str());
            out.append("))");
            out
        },
        Message::SyncExistingPlayerId { player_id_client, player_id_host } => {
            let mut out = String::from_str("(");
            out.append(player_id_client.as_str());
            out.append(", SyncExistingPlayerId(");
            out.append(player_id_host.as_str());
            out.append("))");
            out
        },
        Message::StateGameConnectionOnline => String::from_str("StateGameConnection::Online"),
    }
}


proof fn lemma_trim_plain(f: Seq<char>)
    requires
        plain_field(f),
    ensures
        trim(f) == f,
{
    assert(trim_start(f) == f);
    assert(trim_end(f) == f);
}

proof fn lemma_first_sep_at(s: Seq<char>, i: int)
    requires
        0 <= i,
        i + 1 < s.len(),
        s[i] == ',',
        s[i + 1] == ' ',
        forall|j: int| 0 <= j < i ==> !#[trigger] sep_at(s, j),
    ensures
        first_sep(s) == i,
{
    let f = sep_flags(s);
    assert forall|j: int| 0 <= j < i implies !is_set()(#[trigger] f[j]) by {
        assert(!sep_at(s, j));
    }
    assert(is_first_from(f, 0, is_set(), i));
    lemma_first_from_is(f, 0, is_set(), i);
}

/// No separator starts inside `a` where `a` is followed by a comma.
proof fn lemma_no_sep_before(a: Seq<char>, x: Seq<char>)
    requires
        no_sep(a),
        a.len() < x.len(),
        x.subrange(0, a.len() as int) == a,
        x[a.len() as int] == ',',
    ensures
        forall|j: int| 0 <= j < a.len() ==> !#[trigger] sep_at(x, j),
{
    assert forall|j: int| 0 <= j < a.len() implies !#[trigger] sep_at(x, j) by {
        assert(x[j] == x.subrange(0, a.len() as int)[j]);
        if j + 1 < a.len() {
            assert(x[j + 1] == x.subrange(0, a.len() as int)[j + 1]);
            assert(!sep_at(a, j));
        }
    }
}

proof fn lemma_split_init(id: Seq<char>, username: Seq<char>, email: Seq<char>)
    requires
        no_sep(id),
        no_sep(username),
    ensures
        split3(init_field_list(id, username, email)) == Some((id, username, email)),
{
    reveal_strlit(", ");
    let x = init_field_list(id, username, email);
    assert(x.subrange(0, id.len() as int) =~= id);
    lemma_no_sep_before(id, x);
    lemma_first_sep_at(x, id.len() as int);
    let rest = x.subrange(id.len() as int + 2, x.len() as int);
    assert(rest =~= username + ", "@ + email);
    assert(rest.subrange(0, username.len() as int) =~= username);
    lemma_no_sep_before(username, rest);
    lemma_first_sep_at(rest, username.len() as int);
    assert(x.subrange(0, id.len() as int) =~= id);
    assert(rest.subrange(0, username.len() as int) =~= username);
    assert(rest.subrange(username.len() as int + 2, rest.len() as int) =~= email);
}

proof fn lemma_field_list_one_line(id: Seq<char>, username: Seq<char>, email: Seq<char>)
    requires
        no_char(id, '\n'),
        no_char(username, '\n'),
        no_char(email, '\n'),
    ensures
        no_char(init_field_list(id, username, email), '\n'),
{
    reveal_strlit(", ");
    let x = init_field_list(id, username, email);
    let a = id.len() as int;
    let b = username.len() as int;
    assert forall|j: int| 0 <= j < x.len() implies #[trigger] x[j] != '\n' by {
        if j < a {
            assert(x[j] == id[j]);
        } else if j < a + 2 {
        } else if j < a + 2 + b {
            assert(x[j] == username[j - a - 2]);
        } else if j < a + b + 4 {
        } else {
            assert(x[j] == email[j - a - b - 4]);
        }
    }
}

proof fn lemma_init_fields(tag: Option<Seq<char>>, id: Seq<char>, username: Seq<char>, email: Seq<char>)
    requires
        plain_field(id) && no_sep(id),
        plain_field(username) && no_sep(username),
        plain_field(email),
    ensures
        init_fields(tag, init_field_list(id, username, email)) == Ok::<MessageView, DecodeError>(
            MessageView::InitPlayerConnection { tag, id, username, email },
        ),
{
    lemma_split_init(id, username, email);
    lemma_trim_plain(id);
    lemma_trim_plain(username);
    lemma_trim_plain(email);
}

/// The text `(cmd, (x))` matches the bracket pattern with command `cmd` and payload `x`.
proof fn lemma_bracket_shape(cmd: Seq<char>, x: Seq<char>)
    requires
        cmd.len() >= 1,
        no_char(cmd, ','),
        no_char(x, '\n'),
    ensures
        bracket_parts("("@ + cmd + ", ("@ + x + "))"@) == Some((cmd, x)),
{
    reveal_strlit("(");
    reveal_strlit(", (");
    reveal_strlit("))");
    let s = "("@ + cmd + ", ("@ + x + "))"@;
    let c = cmd.len() as int;
    let n = s.len() as int;
    assert(n == c + x.len() + 6);
    assert(s[0] == '(');
    assert forall|j: int| 1 <= j < c + 1 implies !is_char(',')(#[trigger] s[j]) by {
        assert(s[j] == cmd[j - 1]);
    }
    assert(s[c + 1] == ',');
    assert(is_first_from(s, 1, is_char(','), c + 1));
    lemma_first_from_is(s, 1, is_char(','), c + 1);
    assert(s[c + 2] == ' ');
    assert(s[c + 3] == '(');
    assert(is_first_from(s, c + 2, not_ws(), c + 3));
    lemma_first_from_is(s, c + 2, not_ws(), c + 3);
    assert(s[n - 2] == ')');
    assert(s[n - 1] == ')');
    assert(s.subrange(c + 4, n - 2) =~= x);
    assert(s.subrange(1, c + 1) =~= cmd);
}

/// The text `(t, cmd(f))` does not match the bracket pattern.
proof fn lemma_tagged_not_bracket(t: Seq<char>, cmd: Seq<char>, f: Seq<char>)
    requires
        no_char(t, ',') || no_char(t, '('),
        cmd.len() >= 1,
        cmd[0] != '(',
        !is_ws(cmd[0]),
    ensures
        bracket_parts("("@ + t + ", "@ + cmd + "("@ + f + "))"@) is None,
{
    reveal_strlit("(");
    reveal_strlit(", ");
    reveal_strlit("))");
    let s = "("@ + t + ", "@ + cmd + "("@ + f + "))"@;
    let a = t.len() as int;
    let n = s.len() as int;
    assert(n == a + cmd.len() + f.len() + 6);
    assert(s[a + 1] == ',');
    assert(s[a + 2] == ' ');
    assert(s[a + 3] == cmd[0]);
    lemma_first_from_cases(s, 1, is_char(','));
    let k = first_from(s, 1, is_char(','));
    assert(k <= a + 1) by {
        if k > a + 1 {
            assert(!is_char(',')(s[a + 1]));
        }
    }
    if 2 <= k && k < n {
        lemma_first_from_cases(s, k + 1, not_ws());
        let j = first_from(s, k + 1, not_ws());
        if k == a + 1 {
            assert(is_first_from(s, a + 2, not_ws(), a + 3));
            lemma_first_from_is(s, a + 2, not_ws(), a + 3);
        } else {
            assert(s[k] == t[k - 1]);
            assert(!no_char(t, ','));
            assert(j <= a + 1) by {
                if j > a + 1 {
                    assert(!not_ws()(s[a + 1]));
                }
            }
            if j <= a {
                assert(s[j] == t[j - 1]);
            }
        }
    }
}

/// The text `(t, cmd(f))` has the tagged shape with tag `t`, command `cmd`
/// and fields `f`.
proof fn lemma_tagged_parts(t: Seq<char>, cmd: Seq<char>, f: Seq<char>)
    requires
        no_sep(t),
        cmd.len() >= 1,
        no_char(cmd, '('),
    ensures
        tagged_parts("("@ + t + ", "@ + cmd + "("@ + f + "))"@) == Some((t, cmd, f)),
{
    reveal_strlit("(");
    reveal_strlit(", ");
    reveal_strlit("))");
    reveal_strlit(")");
    let s = "("@ + t + ", "@ + cmd + "("@ + f + "))"@;
    let a = t.len() as int;
    let c = cmd.len() as int;
    let n = s.len() as int;
    let inner = s.subrange(1, n - 1);
    assert(inner =~= t + ", "@ + cmd + "("@ + f + ")"@);
    assert(inner.subrange(0, a) =~= t);
    lemma_no_sep_before(t, inner);
    lemma_first_sep_at(inner, a);
    let rest = inner.subrange(a + 2, inner.len() as int);
    assert(rest =~= cmd + "("@ + f + ")"@);
    assert forall|j: int| 0 <= j < c implies !is_char('(')(#[trigger] rest[j]) by {
        assert(rest[j] == cmd[j]);
    }
    assert(rest[c] == '(');
    assert(is_first_from(rest, 0, is_char('('), c));
    lemma_first_from_is(rest, 0, is_char('('), c);
    assert(rest.last() == ')');
    assert(rest.subrange(0, c) =~= cmd);
    assert(rest.subrange(c + 1, rest.len() - 1) =~= f);
}

/// The text `(t, cmd(f))` does not match the bracket pattern, and has the
/// tagged shape with tag `t`, command `cmd` and fields `f`.
proof fn lemma_tagged_shape(t: Seq<char>, cmd: Seq<char>, f: Seq<char>)
    requires
        plain_tag(t),
        cmd.len() >= 1,
        no_char(cmd, '('),
        !is_ws(cmd[0]),
    ensures
        bracket_parts("("@ + t + ", "@ + cmd + "("@ + f + "))"@) is None,
        tagged_parts("("@ + t + ", "@ + cmd + "("@ + f + "))"@) == Some((t, cmd, f)),
{
    assert(cmd[0] != '(');
    lemma_tagged_not_bracket(t, cmd, f);
    lemma_tagged_parts(t, cmd, f);
}

proof fn lemma_command_names()
    ensures
        no_char("InitPlayerConnection"@, ','),
        no_char("InitPlayerConnection"@, '('),
        !is_ws("InitPlayerConnection"@[0]),
        no_char("PacketAllStates"@, ','),
        no_char("PacketHeartBeat"@, ','),
        no_char("REQUEST_FULL_MAP_SETS"@, ','),
        no_char("RunTrigger"@, '('),
        !is_ws("RunTrigger"@[0]),
        no_char("SyncExistingPlayerId"@, '('),
        !is_ws("SyncExistingPlayerId"@[0]),
        "InitPlayerConnection"@ != "PacketAllStates"@,
        "InitPlayerConnection"@ != "PacketHeartBeat"@,
        "InitPlayerConnection"@ != "REQUEST_FULL_MAP_SETS"@,
        "PacketAllStates"@ != "PacketHeartBeat"@,
        "PacketAllStates"@ != "REQUEST_FULL_MAP_SETS"@,
        "PacketHeartBeat"@ != "REQUEST_FULL_MAP_SETS"@,
        "InitPlayerConnection"@ != "RunTrigger"@,
        "InitPlayerConnection"@ != "SyncExistingPlayerId"@,
        "RunTrigger"@ != "SyncExistingPlayerId"@,
        "StateGameConnection::Online"@[0] == 'S',
        "StateGameConnection::Online"@.len() > 0,
        "InitPlayerConnection"@.len() == 20,
        "PacketAllStates"@.len() == 15,
        "PacketHeartBeat"@.len() == 15,
        "REQUEST_FULL_MAP_SETS"@.len() == 21,
        "RunTrigger"@.len() == 10,
        "SyncExistingPlayerId"@.len() == 20,
{
    reveal_strlit("InitPlayerConnection");
    reveal_strlit("PacketAllStates");
    reveal_strlit("PacketHeartBeat");
    reveal_strlit("REQUEST_FULL_MAP_SETS");
    reveal_strlit("RunTrigger");
    reveal_strlit("SyncExistingPlayerId");
    reveal_strlit("StateGameConnection::Online");
    assert("PacketAllStates"@[6] != "PacketHeartBeat"@[6]);
    assert("InitPlayerConnection"@.len() == 20);
    assert("RunTrigger"@.len() == 10);
    assert("SyncExistingPlayerId"@.len() == 20);
    assert("InitPlayerConnection"@[0] != "SyncExistingPlayerId"@[0]);
    assert("PacketAllStates"@.len() == 15);
    assert("PacketHeartBeat"@.len() == 15);
    assert("REQUEST_FULL_MAP_SETS"@.len() == 21);
}

proof fn lemma_not_status(s: Seq<char>)
    requires
        s.len() > 0,
        s[0] == '(',
    ensures
        s != "StateGameConnection::Online"@,
{
    lemma_command_names();
}

proof fn lemma_bracket_message(cmd: Seq<char>, lit: Seq<char>, x: Seq<char>, s: Seq<char>)
    requires
        cmd.len() >= 1,
        no_char(cmd, ','),
        no_char(x, '\n'),
        lit == "("@ + cmd + ", ("@,
        s == lit + x + "))"@,
    ensures
        s != "StateGameConnection::Online"@,
        bracket_parts(s) == Some((cmd, x)),
{
    reveal_strlit("(");
    lemma_bracket_shape(cmd, x);
    assert(s[0] == '(');
    lemma_not_status(s);
}

proof fn lemma_tagged_message(t: Seq<char>, cmd: Seq<char>, lit: Seq<char>, f: Seq<char>, s: Seq<char>)
    requires
        plain_tag(t),
        cmd.len() >= 1,
        no_char(cmd, '('),
        !is_ws(cmd[0]),
        lit == ", "@ + cmd + "("@,
        s == "("@ + t + lit + f + "))"@,
    ensures
        s != "StateGameConnection::Online"@,
        bracket_parts(s) is None,
        tagged_parts(s) == Some((t, cmd, f)),
{
    reveal_strlit("(");
    assert(s =~= "("@ + t + ", "@ + cmd + "("@ + f + "))"@);
    lemma_tagged_shape(t, cmd, f);
    assert(s[0] == '(');
    lemma_not_status(s);
}

proof fn lemma_init_literal()
    ensures
        "(InitPlayerConnection, ("@ == "("@ + "InitPlayerConnection"@ + ", ("@,
{
    reveal_strlit("(InitPlayerConnection, (");
    reveal_strlit("(");
    reveal_strlit(", (");
    reveal_strlit("InitPlayerConnection");
    assert("(InitPlayerConnection, ("@ =~= "("@ + "InitPlayerConnection"@ + ", ("@);
}

proof fn lemma_literals_tagged()
    ensures
        ", InitPlayerConnection("@ == ", "@ + "InitPlayerConnection"@ + "("@,
        ", RunTrigger("@ == ", "@ + "RunTrigger"@ + "("@,
        ", SyncExistingPlayerId("@ == ", "@ + "SyncExistingPlayerId"@ + "("@,
{
    reveal_strlit(", ");
    reveal_strlit("(");
    reveal_strlit(", InitPlayerConnection(");
    reveal_strlit("InitPlayerConnection");
    assert(", InitPlayerConnection("@ =~= ", "@ + "InitPlayerConnection"@ + "("@);
    reveal_strlit(", RunTrigger(");
    reveal_strlit("RunTrigger");
    assert(", RunTrigger("@ =~= ", "@ + "RunTrigger"@ + "("@);
    reveal_strlit(", SyncExistingPlayerId(");
    reveal_strlit("SyncExistingPlayerId");
    assert(", SyncExistingPlayerId("@ =~= ", "@ + "SyncExistingPlayerId"@ + "("@);
}

#[verifier::rlimit(40)]
proof fn lemma_round_trip_init_bracket(id: Seq<char>, username: Seq<char>, email: Seq<char>)
    requires
        well_formed(MessageView::InitPlayerConnection { tag: None, id, username, email }),
    ensures
        ({
            let m = MessageView::InitPlayerConnection { tag: None, id, username, email };
            decode_spec(encode_spec(m)) == Ok::<MessageView, DecodeError>(m)
        }),
{
    let m = MessageView::InitPlayerConnection { tag: None, id, username, email };
    let x = init_field_list(id, username, email);
    lemma_command_names();
    lemma_init_fields(None, id, username, email);
    lemma_field_list_one_line(id, username, email);
    lemma_init_literal();
    lemma_bracket_message("InitPlayerConnection"@, "(InitPlayerConnection, ("@, x, encode_spec(m));
}

#[verifier::rlimit(40)]
proof fn lemma_round_trip_init_tagged(t: Seq<char>, id: Seq<char>, username: Seq<char>, email: Seq<char>)
    requires
        well_formed(MessageView::InitPlayerConnection { tag: Some(t), id, username, email }),
    ensures
        ({
            let m = MessageView::InitPlayerConnection { tag: Some(t), id, username, email };
            decode_spec(encode_spec(m)) == Ok::<MessageView, DecodeError>(m)
        }),
{
    let m = MessageView::InitPlayerConnection { tag: Some(t), id, username, email };
    let x = init_field_list(id, username, email);
    lemma_command_names();
    lemma_init_fields(Some(t), id, username, email);
    lemma_literals_tagged();
    lemma_tagged_message(t, "InitPlayerConnection"@, ", InitPlayerConnection("@, x, encode_spec(m));
}

proof fn lemma_round_trip_packets(m: MessageView)
    requires
        well_formed(m),
        m is PacketAllStates || m is PacketHeartBeat || m is RequestFullMapSets,
    ensures
        decode_spec(encode_spec(m)) == Ok::<MessageView, DecodeError>(m),
{
    lemma_command_names();
    reveal_strlit("(");
    reveal_strlit(", (");
    match m {
        MessageView::PacketAllStates { payload } => {
            reveal_strlit("(PacketAllStates, (");
            reveal_strlit("PacketAllStates");
            assert("(PacketAllStates, ("@ =~= "("@ + "PacketAllStates"@ + ", ("@);
            lemma_bracket_message("PacketAllStates"@, "(PacketAllStates, ("@, payload, encode_spec(m));
        },
        MessageView::PacketHeartBeat { payload } => {
            reveal_strlit("(PacketHeartBeat, (");
            reveal_strlit("PacketHeartBeat");
            assert("(PacketHeartBeat, ("@ =~= "("@ + "PacketHeartBeat"@ + ", ("@);
            lemma_bracket_message("PacketHeartBeat"@, "(PacketHeartBeat, ("@, payload, encode_spec(m));
        },
        _ => {
            reveal_strlit("(REQUEST_FULL_MAP_SETS, ())");
            reveal_strlit("REQUEST_FULL_MAP_SETS");
            reveal_strlit("))");
            let lit = "("@ + "REQUEST_FULL_MAP_SETS"@ + ", ("@;
            assert(encode_spec(m) =~= lit + Seq::<char>::empty() + "))"@);
            assert(no_char(Seq::<char>::empty(), '\n'));
            lemma_bracket_message("REQUEST_FULL_MAP_SETS"@, lit, Seq::<char>::empty(), encode_spec(m));
        },
    }
}

proof fn lemma_round_trip_broadcasts(m: MessageView)
    requires
        well_formed(m),
        m is RunTrigger || m is SyncExistingPlayerId,
    ensures
        decode_spec(encode_spec(m)) == Ok::<MessageView, DecodeError>(m),
{
    lemma_command_names();
    lemma_literals_tagged();
    match m {
        MessageView::RunTrigger { player_id, trigger_name } => {
            lemma_tagged_message(player_id, "RunTrigger"@, ", RunTrigger("@, trigger_name, encode_spec(m));
        },
        MessageView::SyncExistingPlayerId { player_id_client, player_id_host } => {
            lemma_tagged_message(
                player_id_client,
                "SyncExistingPlayerId"@,
                ", SyncExistingPlayerId("@,
                player_id_host,
                encode_spec(m),
            );
        },
        _ => {},
    }
}

/// Every well-formed message reads back from its own text; so decoding the
/// text of a well-formed message and encoding the result gives back the
/// same text, character for character.
pub proof fn lemma_round_trip(m: MessageView)
    requires
        well_formed(m),
    ensures
        decode_spec(encode_spec(m)) == Ok::<MessageView, DecodeError>(m),
        encode_spec(decode_spec(encode_spec(m))->Ok_0) == encode_spec(m),
{
    match m {
        MessageView::InitPlayerConnection { tag, id, username, email } => match tag {
            None => lemma_round_trip_init_bracket(id, username, email),
            Some(t) => lemma_round_trip_init_tagged(t, id, username, email),
        },
        MessageView::StateGameConnectionOnline => {},
        MessageView::RunTrigger { .. } => lemma_round_trip_broadcasts(m),
        MessageView::SyncExistingPlayerId { .. } => lemma_round_trip_broadcasts(m),
        _ => lemma_round_trip_packets(m),
    }
}

} // verus!
