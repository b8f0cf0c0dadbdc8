//! The decisions that the server takes while it reads from one client: how
//! a line is checked and cleaned, how the identification handshake goes,
//! and what becomes of each later line.
use vstd::prelude::*;

use crate::protocol::{Operations, ReciveView, Resultado, SendView, TypeReciveMessages};
use crate::server::{Letter, Server};
use crate::server_messages::{
    generate_not_identified_msg, generate_not_valid_msg, generate_user_already_exists_response,
    line,
};
use crate::table::names_contains;
use crate::text::{chars_of, lowercase, parse_decimal, parse_decimal_chars, to_lower};
use vstd::string::StringSliceAdditionalSpecFns;

verus! {

/// The most bytes that one read of a line may take.
pub const READ_LIMIT: usize = 1024;

/// The port used when the one typed in is not valid.
pub const DEFAULT_PORT: u16 = 8080;

pub open spec fn ends_with_newline(line: Seq<u8>) -> bool {
    line.len() > 0 && line.last() == 10u8
}

/// A read of `n` bytes that filled the limit without reaching the end of a
/// line: the client is dropped.
pub fn exceeds_read_limit(n: usize, line: &[u8]) -> (r: bool)
    ensures
        r == (n >= READ_LIMIT && !ends_with_newline(line@)),
{
    n >= READ_LIMIT && !(line.len() > 0 && line[line.len() - 1] == 10u8)
}

/// `line` without leading NUL bytes.
pub open spec fn trim_nul_start(line: Seq<u8>) -> Seq<u8>
    decreases line.len(),
{
    if line.len() > 0 && line[0] == 0u8 {
        trim_nul_start(line.drop_first())
    } else {
        line
    }
}

/// `line` without trailing NUL bytes.
pub open spec fn trim_nul_end(line: Seq<u8>) -> Seq<u8>
    decreases line.len(),
{
    if line.len() > 0 && line.last() == 0u8 {
        trim_nul_end(line.drop_last())
    } else {
        line
    }
}

/// `line` without leading and trailing NUL bytes.
pub open spec fn trim_nul(line: Seq<u8>) -> Seq<u8> {
    trim_nul_end(trim_nul_start(line))
}

proof fn lemma_trim_nul_start_at(s: Seq<u8>, i: int)
    requires
        0 <= i <= s.len(),
        forall|j: int| 0 <= j < i ==> #[trigger] s[j] == 0u8,
        i == s.len() || s[i] != 0u8,
    ensures
        trim_nul_start(s) == s.skip(i),
    decreases i,
{
    if i > 0 {
        lemma_trim_nul_start_at(s.drop_first(), i - 1);
        assert(s.drop_first().skip(i - 1) =~= s.skip(i));
    } else {
        assert(s.skip(0) =~= s);
    }
}

proof fn lemma_trim_nul_end_at(s: Seq<u8>, j: int)
    requires
        0 <= j <= s.len(),
        forall|k: int| j <= k < s.len() ==> #[trigger] s[k] == 0u8,
        j == 0 || s[j - 1] != 0u8,
    ensures
        trim_nul_end(s) == s.take(j),
    decreases s.len() - j,
{
    if j < s.len() {
        lemma_trim_nul_end_at(s.drop_last(), j);
        assert(s.drop_last().take(j) =~= s.take(j));
    } else {
        assert(s.take(j) =~= s);
    }
}

/// A line read from a client, without the NUL bytes around it.
pub fn clean_line(line: &[u8]) -> (r: Vec<u8>)
    ensures
        r@ == trim_nul(line@),
{
    let mut i: usize = 0;
    while i < line.len() && line[i] == 0u8
        invariant
            i <= line@.len(),
            forall|j: int| 0 <= j < i ==> #[trigger] line@[j] == 0u8,
        decreases line@.len() - i,
    {
        i = i + 1;
    }
    proof {
        lemma_trim_nul_start_at(line@, i as int);
    }
    let mut j: usize = line.len();
    while j > i && line[j - 1] == 0u8
        invariant
            i <= j <= line@.len(),
            forall|k: int| j <= k < line@.len() ==> #[trigger] line@[k] == 0u8,
        decreases j,
    {
        j = j - 1;
    }
    let ghost rest = line@.skip(i as int);
    proof {
        assert forall|k: int| j - i <= k < rest.len() implies #[trigger] rest[k] == 0u8 by {
            assert(rest[k] == line@[k + i]);
        }
        if j > i {
            assert(rest[j - i - 1] == line@[j - 1]);
        }
        lemma_trim_nul_end_at(rest, j - i);
        assert(rest.take(j - i) =~= line@.subrange(i as int, j as int));
    }
    let mut r: Vec<u8> = Vec::new();
    let mut k: usize = i;
    while k < j
        invariant
            i <= k <= j <= line@.len(),
            r@ == line@.subrange(i as int, k as int),
        decreases j - k,
    {
        r.push(line[k]);
        k = k + 1;
        assert(line@.subrange(i as int, k as int) == line@.subrange(i as int, k - 1 as int).push(line@[k - 1]));
    }
    r
}

/// A message as it goes down a client's channel: followed by a NUL byte.
pub fn build_msg_for_client(msg: Vec<u8>) -> (r: Vec<u8>)
    ensures
        r@ == msg@.push(0u8),
{
    let mut bytes = msg;
    bytes.push(0u8);
    bytes
}

/// Where the identification handshake goes next.
pub enum IdentifyStep {
    /// The client is identified under this name.
    Accept(String),
    /// The name is taken: the client gets this answer and may try again.
    Retry(Vec<u8>),
    /// The client gets this answer and is dropped.
    Reject(Vec<u8>),
}

/// The answer to a line that breaks the protocol.
pub open spec fn not_valid() -> Seq<u8> {
    line(SendView::Response { operation: Operations::Invalid, result: Resultado::Invalid, extra: None })
}

/// The step for the name `username`: accepted if no connected user has its
/// key, otherwise refused with the name given back.
pub open spec fn name_step(r: IdentifyStep, users: Map<Seq<char>, usize>, username: Seq<char>) -> bool {
    if users.contains_key(lowercase(username)) {
        r matches IdentifyStep::Retry(answer) && answer@ == line(
            SendView::Response { operation: Operations::Identify, result: Resultado::UserAlreadyExists, extra: Some(username) },
        )
    } else {
        r matches IdentifyStep::Accept(name) && name@ == username
    }
}

impl Server {
    /// The step for a client that asks for the name `username`.
    pub fn identify_name(&self, username: String) -> (r: IdentifyStep)
        ensures
            name_step(r, self@.users, username@),
    {
        let key = to_lower(username.as_str());
        if names_contains(&self.users, key.as_str()) {
            IdentifyStep::Retry(generate_user_already_exists_response(username.as_str()))
        } else {
            IdentifyStep::Accept(username)
        }
    }

    /// The step for the first line of a client, parsed if it was a message
    /// of the protocol: an identification goes on by its name; a line that
    /// is not a message is answered as invalid; any other message as not
    /// identified.
    pub fn try_identify(&self, message: Option<TypeReciveMessages>) -> (r: IdentifyStep)
        ensures
            match message {
                None => r matches IdentifyStep::Reject(answer) && answer@ == not_valid(),
                Some(m) => match m@ {
                    ReciveView::Identify { username } => name_step(r, self@.users, username),
                    _ => r matches IdentifyStep::Reject(answer) && answer@ == line(
                        SendView::Response { operation: Operations::Invalid, result: Resultado::NotIdentified, extra: None },
                    ),
                },
            },
    {
        match message {
            None => IdentifyStep::Reject(generate_not_valid_msg()),
            Some(TypeReciveMessages::Identify { username }) => self.identify_name(username),
            Some(_) => IdentifyStep::Reject(generate_not_identified_msg()),
        }
    }
}

/// The name in a new attempt to identify, parsed if it was a message of the
/// protocol: only an identification counts.
pub fn retry_identify(message: Option<TypeReciveMessages>) -> (r: Result<String, ()>)
    ensures
        match message {
            Some(m) => match m@ {
                ReciveView::Identify { username } => r matches Ok(name) && name@ == username,
                _ => r is Err,
            },
            None => r is Err,
        },
{
    match message {
        Some(TypeReciveMessages::Identify { username }) => Ok(username),
        _ => Err(()),
    }
}

/// What becomes of a line from an identified client.
pub enum ClientStep {
    /// The message goes to the server as this letter.
    Forward(Letter),
    /// The client is done; it gets the answer, if any, then the server hears
    /// that it disconnected.
    Stop(Option<Vec<u8>>),
}

/// The step for a line of the user `username`, whose channel is `user_tx`,
/// parsed if it was a message of the protocol. A line that is not a message
/// and a second identification are answered as invalid and end the
/// session; a disconnection ends it without answer; any other message goes
/// to the server.
pub fn client_line_step(username: &str, user_tx: u64, message: Option<TypeReciveMessages>) -> (r: ClientStep)
    ensures
        match message {
            None => r matches ClientStep::Stop(Some(answer)) && answer@ == not_valid(),
            Some(m) => match m@ {
                ReciveView::Disconect => r matches ClientStep::Stop(None),
                ReciveView::Identify { .. } => r matches ClientStep::Stop(Some(answer)) && answer@ == not_valid(),
                _ => r matches ClientStep::Forward(l) && l.usr_sender@ == username@ && l.msg == m && l.reply_to
                    == user_tx,
            },
        },
{
    match message {
        None => ClientStep::Stop(Some(generate_not_valid_msg())),
        Some(TypeReciveMessages::Disconect) => ClientStep::Stop(None),
        Some(TypeReciveMessages::Identify { .. }) => ClientStep::Stop(Some(generate_not_valid_msg())),
        Some(m) => ClientStep::Forward(Letter::new(username.to_owned(), m, user_tx)),
    }
}

/// The letter that tells the server that `username` disconnected.
pub fn disconnect_letter(username: String, user_tx: u64) -> (l: Letter)
    ensures
        l.usr_sender == username,
        l.msg@ == ReciveView::Disconect,
        l.reply_to == user_tx,
{
    Letter::new(username, TypeReciveMessages::Disconect, user_tx)
}

/// The port of the line typed in at start-up: the whole line (newline
/// included) read as a port number, or the default port when the line is
/// shorter than four bytes or is not a number.
pub fn port_from_entry(response: &str) -> (port: u16)
    ensures
        port == (if response.spec_bytes().len() < 4 {
            DEFAULT_PORT as int
        } else {
            match parse_decimal(response@, 0xFFFF) {
                Some(v) => v as int,
                None => DEFAULT_PORT as int,
            }
        }),
{
    if response.as_bytes().len() < 4 {
        return DEFAULT_PORT;
    }
    let chars = chars_of(response);
    match parse_decimal_chars(chars.as_slice(), 0xFFFF) {
        Some(v) => v as u16,
        None => DEFAULT_PORT,
    }
}

} // verus!
