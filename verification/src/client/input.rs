//! The commands that a user types, and the name and address asked for at
//! start-up.
use vstd::prelude::*;

use crate::protocol::State;
use crate::text::{
    chars_of, decimal, joined, lemma_decimal_reads_back, lemma_parse_decimal_of,
    lemma_pieces_of_joined, parse_decimal, parse_decimal_chars, split_at_char, split_words,
    string_of, trim, trim_chars, words, pieces,
};
use vstd::string::StringSliceAdditionalSpecFns;

verus! {

/// What the user asked for with one line.
#[derive(Debug, PartialEq, Eq)]
pub enum Action {
    Status { status: State },
    Users,
    PrivateText { username: String, text: String },
    Disconnect,
    PublicText { text: String },
    Help,
    NewRoom { roomname: String },
    Invite { roomname: String, usernames: Vec<String> },
    JoinRoom { roomname: String },
    RoomUsers { roomname: String },
    RoomText { roomname: String, text: String },
    LeaveRoom { roomname: String },
}

pub ghost enum ActionView {
    Status { status: State },
    Users,
    PrivateText { username: Seq<char>, text: Seq<char> },
    Disconnect,
    PublicText { text: Seq<char> },
    Help,
    NewRoom { roomname: Seq<char> },
    Invite { roomname: Seq<char>, usernames: Seq<Seq<char>> },
    JoinRoom { roomname: Seq<char> },
    RoomUsers { roomname: Seq<char> },
    RoomText { roomname: Seq<char>, text: Seq<char> },
    LeaveRoom { roomname: Seq<char> },
}

impl View for Action {
    type V = ActionView;

    open spec fn view(&self) -> ActionView {
        match self {
            Action::Status { status } => ActionView::Status { status: *status },
            Action::Users => ActionView::Users,
            Action::PrivateText { username, text } => ActionView::PrivateText { username: username@, text: text@ },
            Action::Disconnect => ActionView::Disconnect,
            Action::PublicText { text } => ActionView::PublicText { text: text@ },
            Action::Help => ActionView::Help,
            Action::NewRoom { roomname } => ActionView::NewRoom { roomname: roomname@ },
            Action::Invite { roomname, usernames } => ActionView::Invite {
                roomname: roomname@,
                usernames: usernames@.map_values(|u: String| u@),
            },
            Action::JoinRoom { roomname } => ActionView::JoinRoom { roomname: roomname@ },
            Action::RoomUsers { roomname } => ActionView::RoomUsers { roomname: roomname@ },
            Action::RoomText { roomname, text } => ActionView::RoomText { roomname: roomname@, text: text@ },
            Action::LeaveRoom { roomname } => ActionView::LeaveRoom { roomname: roomname@ },
        }
    }
}

/// The words joined by single spaces.
pub open spec fn join_words(ws: Seq<Seq<char>>) -> Seq<char>
    decreases ws.len(),
{
    if ws.len() == 0 {
        Seq::empty()
    } else if ws.len() == 1 {
        ws[0]
    } else {
        join_words(ws.drop_last()) + seq![' '] + ws.last()
    }
}

/// The action of a command line split into words.
pub open spec fn command_action(args: Seq<Seq<char>>) -> Result<ActionView, ()> {
    if args.len() == 0 {
        Err(())
    } else {
        let cmd = args[0];
        if cmd == "/status"@ {
            if args.len() < 2 {
                Err(())
            } else if args[1] == "away"@ {
                Ok(ActionView::Status { status: State::Away })
            } else if args[1] == "busy"@ {
                Ok(ActionView::Status { status: State::Busy })
            } else if args[1] == "active"@ {
                Ok(ActionView::Status { status: State::Active })
            } else {
                Err(())
            }
        } else if cmd == "/users"@ {
            Ok(ActionView::Users)
        } else if cmd == "/privateText"@ {
            if args.len() < 3 {
                Err(())
            } else {
                Ok(ActionView::PrivateText { username: args[1], text: join_words(args.skip(2)) })
            }
        } else if cmd == "/disconnect"@ {
            Ok(ActionView::Disconnect)
        } else if cmd == "/help"@ {
            Ok(ActionView::Help)
        } else if cmd == "/newRoom"@ {
            if args.len() < 2 {
                Err(())
            } else {
                Ok(ActionView::NewRoom { roomname: args[1] })
            }
        } else if cmd == "/invite"@ {
            if args.len() < 3 {
                Err(())
            } else {
                Ok(ActionView::Invite { roomname: args[1], usernames: args.skip(2) })
            }
        } else if cmd == "/joinRoom"@ {
            if args.len() < 2 {
                Err(())
            } else {
                Ok(ActionView::JoinRoom { roomname: args[1] })
            }
        } else if cmd == "/roomUsers"@ {
            if args.len() < 2 {
                Err(())
            } else {
                Ok(ActionView::RoomUsers { roomname: args[1] })
            }
        } else if cmd == "/roomText"@ {
            if args.len() < 3 {
                Err(())
            } else {
                Ok(ActionView::RoomText { roomname: args[1], text: join_words(args.skip(2)) })
            }
        } else if cmd == "/leaveRoom"@ {
            if args.len() < 2 {
                Err(())
            } else {
                Ok(ActionView::LeaveRoom { roomname: args[1] })
            }
        } else {
            Err(())
        }
    }
}

/// What a line typed by the user asks for: nothing for a blank line; a
/// command for a line that starts with `/` (`Err` when it is not one); a
/// public text of the trimmed line otherwise.
pub open spec fn entry_action(line: Seq<char>) -> Option<Result<ActionView, ()>> {
    let t = trim(line);
    if t.len() == 0 {
        None
    } else if t[0] == '/' {
        Some(command_action(words(t)))
    } else {
        Some(Ok(ActionView::PublicText { text: t }))
    }
}

/// Whether two character lists are equal.
pub fn same_chars(a: &Vec<char>, b: &Vec<char>) -> (r: bool)
    ensures
        r == (a@ == b@),
{
    if a.len() != b.len() {
        return false;
    }
    let mut i: usize = 0;
    while i < a.len()
        invariant
            i <= a@.len(),
            a@.len() == b@.len(),
            forall|j: int| 0 <= j < i ==> a@[j] == b@[j],
        decreases a@.len() - i,
    {
        if a[i] != b[i] {
            return false;
        }
        i = i + 1;
    }
    assert(a@ =~= b@);
    true
}

/// Whether `word` is the text of `literal`.
fn is_word(word: &Vec<char>, literal: &str) -> (r: bool)
    ensures
        r == (word@ == literal@),
{
    let lit = chars_of(literal);
    same_chars(word, &lit)
}

/// The words `ws[from..]` joined by single spaces.
fn join_from(ws: &Vec<Vec<char>>, from: usize) -> (r: String)
    requires
        from <= ws@.len(),
    ensures
        r@ == join_words(ws@.map_values(|w: Vec<char>| w@).skip(from as int)),
{
    let ghost all = ws@.map_values(|w: Vec<char>| w@);
    let mut out: Vec<char> = Vec::new();
    let mut i: usize = from;
    assert(all.skip(from as int).take(0) =~= Seq::<Seq<char>>::empty());
    while i < ws.len()
        invariant
            from <= i <= ws@.len(),
            all == ws@.map_values(|w: Vec<char>| w@),
            out@ == join_words(all.skip(from as int).take(i - from)),
        decreases ws@.len() - i,
    {
        let ghost prefix = all.skip(from as int).take(i - from);
        let ghost next = all.skip(from as int).take(i - from + 1);
        assert(next.drop_last() =~= prefix);
        assert(next.last() == ws@[i as int]@);
        if i > from {
            out.push(' ');
        }
        let mut k: usize = 0;
        let ghost base = out@;
        while k < ws[i].len()
            invariant
                i < ws@.len(),
                k <= ws@[i as int]@.len(),
                out@ == base + ws@[i as int]@.take(k as int),
            decreases ws@[i as int]@.len() - k,
        {
            out.push(ws[i][k]);
            k = k + 1;
            assert(ws@[i as int]@.take(k as int) == ws@[i as int]@.take(k - 1 as int).push(ws@[i as int]@[k - 1]));
        }
        assert(ws@[i as int]@.take(ws@[i as int]@.len() as int) == ws@[i as int]@);
        i = i + 1;
        assert(out@ =~= join_words(next));
    }
    assert(all.skip(from as int).take(ws@.len() - from) == all.skip(from as int));
    string_of(out.as_slice())
}

/// The words `ws[from..]` as strings.
fn strings_from(ws: &Vec<Vec<char>>, from: usize) -> (r: Vec<String>)
    requires
        from <= ws@.len(),
    ensures
        r@.map_values(|u: String| u@) == ws@.map_values(|w: Vec<char>| w@).skip(from as int),
{
    let mut out: Vec<String> = Vec::new();
    let mut i: usize = from;
    while i < ws.len()
        invariant
            from <= i <= ws@.len(),
            out@.len() == i - from,
            forall|j: int| 0 <= j < out@.len() ==> #[trigger] out@[j]@ == ws@[j + from]@,
        decreases ws@.len() - i,
    {
        out.push(string_of(ws[i].as_slice()));
        i = i + 1;
    }
    assert(out@.map_values(|u: String| u@) =~= ws@.map_values(|w: Vec<char>| w@).skip(from as int));
    out
}

/// The action of a line that the user typed: see `entry_action`.
pub fn parse_user_entry(line: &str) -> (r: Option<Result<Action, ()>>)
    ensures
        match r {
            None => entry_action(line@) is None,
            Some(Err(())) => entry_action(line@) == Some(Err::<ActionView, ()>(())),
            Some(Ok(a)) => entry_action(line@) == Some(Ok::<ActionView, ()>(a@)),
        },
{
    let chars = chars_of(line);
    let t = trim_chars(&chars);
    if t.len() == 0 {
        return None;
    }
    if t[0] != '/' {
        return Some(Ok(Action::PublicText { text: string_of(t.as_slice()) }));
    }
    let args = split_words(&t);
    let ghost argv = args@.map_values(|w: Vec<char>| w@);
    assert(argv =~= words(t@));
    if args.len() == 0 {
        return Some(Err(()));
    }
    let cmd = &args[0];
    let r = if is_word(cmd, "/status") {
        if args.len() < 2 {
            Err(())
        } else if is_word(&args[1], "away") {
            Ok(Action::Status { status: State::Away })
        } else if is_word(&args[1], "busy") {
            Ok(Action::Status { status: State::Busy })
        } else if is_word(&args[1], "active") {
            Ok(Action::Status { status: State::Active })
        } else {
            Err(())
        }
    } else if is_word(cmd, "/users") {
        Ok(Action::Users)
    } else if is_word(cmd, "/privateText") {
        if args.len() < 3 {
            Err(())
        } else {
            Ok(Action::PrivateText { username: string_of(args[1].as_slice()), text: join_from(&args, 2) })
        }
    } else if is_word(cmd, "/disconnect") {
        Ok(Action::Disconnect)
    } else if is_word(cmd, "/help") {
        Ok(Action::Help)
    } else if is_word(cmd, "/newRoom") {
        if args.len() < 2 {
            Err(())
        } else {
            Ok(Action::NewRoom { roomname: string_of(args[1].as_slice()) })
        }
    } else if is_word(cmd, "/invite") {
        if args.len() < 3 {
            Err(())
        } else {
            Ok(Action::Invite { roomname: string_of(args[1].as_slice()), usernames: strings_from(&args, 2) })
        }
    } else if is_word(cmd, "/joinRoom") {
        if args.len() < 2 {
            Err(())
        } else {
            Ok(Action::JoinRoom { roomname: string_of(args[1].as_slice()) })
        }
    } else if is_word(cmd, "/roomUsers") {
        if args.len() < 2 {
            Err(())
        } else {
            Ok(Action::RoomUsers { roomname: string_of(args[1].as_slice()) })
        }
    } else if is_word(cmd, "/roomText") {
        if args.len() < 3 {
            Err(())
        } else {
            Ok(Action::RoomText { roomname: string_of(args[1].as_slice()), text: join_from(&args, 2) })
        }
    } else if is_word(cmd, "/leaveRoom") {
        if args.len() < 2 {
            Err(())
        } else {
            Ok(Action::LeaveRoom { roomname: string_of(args[1].as_slice()) })
        }
    } else {
        Err(())
    };
    Some(r)
}

/// An IPv4 address with a port.
#[derive(Clone, Copy, Debug, PartialEq, Eq)]
pub struct Address {
    pub octets: [u8; 4],
    pub port: u16,
}

/// The address of `args` written as `a.b.c.d.port`: five pieces between
/// dots, four bytes and a port, each as `str::parse` reads them.
pub open spec fn address_of(args: Seq<char>) -> Option<(Seq<u8>, u16)> {
    let p = pieces(args, '.');
    if p.len() != 5 {
        None
    } else {
        match (
            parse_decimal(p[0], 255),
            parse_decimal(p[1], 255),
            parse_decimal(p[2], 255),
            parse_decimal(p[3], 255),
            parse_decimal(p[4], 0xFFFF),
        ) {
            (Some(a), Some(b), Some(c), Some(d), Some(port)) => Some(
                (seq![a as u8, b as u8, c as u8, d as u8], port as u16),
            ),
            _ => None,
        }
    }
}

/// The address written as `a.b.c.d.port`: see `address_of`.
pub fn aux_get_addr(args: &str) -> (r: Result<Address, ()>)
    ensures
        match address_of(args@) {
            Some((octets, port)) => r matches Ok(addr) && addr.octets@ == octets && addr.port == port,
            None => r is Err,
        },
{
    let chars = chars_of(args);
    let arg = split_at_char(&chars, '.');
    if arg.len() != 5 {
        return Err(());
    }
    let a = match parse_decimal_chars(arg[0].as_slice(), 255) {
        Some(v) => v as u8,
        None => { return Err(()); },
    };
    let b = match parse_decimal_chars(arg[1].as_slice(), 255) {
        Some(v) => v as u8,
        None => { return Err(()); },
    };
    let c = match parse_decimal_chars(arg[2].as_slice(), 255) {
        Some(v) => v as u8,
        None => { return Err(()); },
    };
    let d = match parse_decimal_chars(arg[3].as_slice(), 255) {
        Some(v) => v as u8,
        None => { return Err(()); },
    };
    let port = match parse_decimal_chars(arg[4].as_slice(), 0xFFFF) {
        Some(v) => v as u16,
        None => { return Err(()); },
    };
    let addr = Address { octets: [a, b, c, d], port };
    assert(addr.octets@ =~= seq![a, b, c, d]);
    Ok(addr)
}

/// The text `a.b.c.d.port`, each number written in decimal.
pub open spec fn address_text(a: u8, b: u8, c: u8, d: u8, port: u16) -> Seq<char> {
    joined(seq![decimal(a as nat), decimal(b as nat), decimal(c as nat), decimal(d as nat), decimal(port as nat)], '.')
}

/// Four bytes and a port written in decimal and joined by dots read back
/// as the same address, so `aux_get_addr` gives them back.
pub proof fn law_address_round_trip(a: u8, b: u8, c: u8, d: u8, port: u16)
    ensures
        address_of(address_text(a, b, c, d, port)) == Some((seq![a, b, c, d], port)),
{
    let parts = seq![decimal(a as nat), decimal(b as nat), decimal(c as nat), decimal(d as nat), decimal(port as nat)];
    assert forall|i: int| 0 <= i < parts.len() implies !(#[trigger] parts[i]).contains('.') by {
        let n: nat = if i == 0 { a as nat } else if i == 1 { b as nat } else if i == 2 { c as nat } else if i == 3 { d as nat } else { port as nat };
        assert(parts[i] == decimal(n));
        lemma_decimal_reads_back(n);
        if parts[i].contains('.') {
            let p = choose|p: int| 0 <= p < parts[i].len() && parts[i][p] == '.';
            assert(crate::text::is_digit(parts[i][p]));
        }
    }
    lemma_pieces_of_joined(parts, '.');
    lemma_parse_decimal_of(a as nat, 255);
    lemma_parse_decimal_of(b as nat, 255);
    lemma_parse_decimal_of(c as nat, 255);
    lemma_parse_decimal_of(d as nat, 255);
    lemma_parse_decimal_of(port as nat, 0xFFFF);
    assert(pieces(address_text(a, b, c, d, port), '.') == parts);
}

/// A text that does not split into five pieces at its dots is no address,
/// so `aux_get_addr` refuses it.
pub proof fn law_address_needs_five_pieces(s: Seq<char>)
    ensures
        pieces(s, '.').len() != 5 ==> address_of(s) is None,
{
}

/// The address used when the one typed in is not valid: 127.0.0.1:4444.
pub open spec fn default_address() -> (Seq<u8>, u16) {
    (seq![127u8, 0u8, 0u8, 1u8], 4444u16)
}

/// The address of the line typed in at start-up, trimmed; the default
/// address when it is not one.
pub fn address_from_entry(line: &str) -> (addr: Address)
    ensures
        (addr.octets@, addr.port) == (match address_of(trim(line@)) {
            Some(a) => a,
            None => default_address(),
        }),
{
    let chars = chars_of(line);
    let t = trim_chars(&chars);
    let trimmed = string_of(t.as_slice());
    match aux_get_addr(trimmed.as_str()) {
        Ok(addr) => addr,
        Err(()) => {
            let addr = Address { octets: [127u8, 0u8, 0u8, 1u8], port: 4444u16 };
            assert(addr.octets@ =~= seq![127u8, 0u8, 0u8, 1u8]);
            addr
        },
    }
}

/// The most bytes, line end included, that a typed name may take.
pub const MAX_USERNAME_BYTES: usize = 8;

/// What the first name typed at start-up gives.
#[derive(Debug, PartialEq, Eq)]
pub enum UsernameCheck {
    /// The trimmed name is taken.
    Accept(String),
    /// The line is blank: the user is asked again.
    AskAgainEmpty,
    /// The line is longer than allowed: the user is asked again.
    AskAgainTooLong,
}

/// The first name typed in: a blank line asks again; so does a line of more
/// than eight bytes (its line end counted); otherwise the trimmed line is
/// the name.
pub fn check_username(entry: &str) -> (r: UsernameCheck)
    ensures
        trim(entry@).len() == 0 ==> r == UsernameCheck::AskAgainEmpty,
        trim(entry@).len() != 0 && entry.spec_bytes().len() > 8 ==> r == UsernameCheck::AskAgainTooLong,
        trim(entry@).len() != 0 && entry.spec_bytes().len() <= 8 ==> (r matches UsernameCheck::Accept(name)
            && name@ == trim(entry@)),
{
    let chars = chars_of(entry);
    let t = trim_chars(&chars);
    if t.len() == 0 {
        UsernameCheck::AskAgainEmpty
    } else if entry.as_bytes().len() > MAX_USERNAME_BYTES {
        UsernameCheck::AskAgainTooLong
    } else {
        UsernameCheck::Accept(string_of(t.as_slice()))
    }
}

/// The name typed again after a blank line: blank again or too long fails,
/// otherwise the trimmed line is the name.
pub fn recheck_username_after_empty(entry: &str) -> (r: Result<String, ()>)
    ensures
        trim(entry@).len() == 0 || entry.spec_bytes().len() > 8 ==> r is Err,
        !(trim(entry@).len() == 0 || entry.spec_bytes().len() > 8) ==> (r matches Ok(name) && name@ == trim(entry@)),
{
    let chars = chars_of(entry);
    let t = trim_chars(&chars);
    if t.len() == 0 {
        return Err(());
    }
    if entry.as_bytes().len() > MAX_USERNAME_BYTES {
        Err(())
    } else {
        Ok(string_of(t.as_slice()))
    }
}

/// The name typed again after a line that was too long: too long again
/// fails, otherwise the trimmed line is the name, blank or not.
pub fn recheck_username_after_long(entry: &str) -> (r: Result<String, ()>)
    ensures
        entry.spec_bytes().len() > 8 ==> r is Err,
        entry.spec_bytes().len() <= 8 ==> (r matches Ok(name) && name@ == trim(entry@)),
{
    if entry.as_bytes().len() > MAX_USERNAME_BYTES {
        Err(())
    } else {
        let chars = chars_of(entry);
        let t = trim_chars(&chars);
        Ok(string_of(t.as_slice()))
    }
}

} // verus!
