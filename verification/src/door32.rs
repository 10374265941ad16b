//! DOOR32.SYS dropfile.
//!
//! Cross-BBS doors (Synchronet, EleBBS, Mystic, …) don't always hand the door
//! its connection via stdio. The portable convention is the DOOR32.SYS dropfile:
//! the BBS writes it, passes its path on the command line, and line 2 carries an
//! inherited **comm handle** (a socket fd on unix, a Winsock SOCKET on Windows)
//! that the door reads/writes for all terminal I/O. This is how a door talks
//! to a caller on a Windows BBS, where there is no stdio passthrough socket.
//!
//! Format (one value per line):
//!   1  comm type: 0=local, 1=serial, 2=telnet (socket)
//!   2  comm/socket handle
//!   3  baud rate
//!   4  BBS software name/version
//!   5  user record number
//!   6  user real name
//!   7  user handle / alias
//!   8  user security level
//!   9  time left, minutes
//!   10 emulation: 0=ascii, 1=ansi, …
//!   11 current node number

use crate::text;
use vstd::prelude::*;

verus! {

#[derive(Debug, Clone, PartialEq)]
pub struct Door32 {
    /// 0=local, 1=serial, 2=telnet socket
    pub comm_type: u8,
    /// inherited comm handle (fd on unix, SOCKET on Windows)
    pub handle: u64,
    pub bbs_id: String,
    pub user_number: u32,
    pub real_name: String,
    pub alias: String,
    pub security: u32,
    pub minutes_left: u32,
    pub emulation: u8,
    pub node: u32,
}

/// What a dropfile says.
pub struct Dropfile {
    pub comm_type: u8,
    pub handle: u64,
    pub bbs_id: Seq<char>,
    pub user_number: u32,
    pub real_name: Seq<char>,
    pub alias: Seq<char>,
    pub security: u32,
    pub minutes_left: u32,
    pub emulation: u8,
    pub node: u32,
}

impl View for Door32 {
    type V = Dropfile;

    open spec fn view(&self) -> Dropfile {
        Dropfile {
            comm_type: self.comm_type,
            handle: self.handle,
            bbs_id: self.bbs_id@,
            user_number: self.user_number,
            real_name: self.real_name@,
            alias: self.alias@,
            security: self.security,
            minutes_left: self.minutes_left,
            emulation: self.emulation,
            node: self.node,
        }
    }
}

/// Line `i` (from 0) without the white space around it; empty when missing.
pub open spec fn value(lines: Seq<Seq<char>>, i: int) -> Seq<char> {
    if i < lines.len() {
        text::trimmed(lines[i])
    } else {
        Seq::empty()
    }
}

/// The number on line `i`, or 0.
pub open spec fn number_or_zero(lines: Seq<Seq<char>>, i: int, max: nat) -> nat {
    match text::number(value(lines, i), max) {
        Some(n) => n,
        None => 0,
    }
}

/// What a dropfile's text says. The first two lines are required.
pub open spec fn dropfile(contents: Seq<char>) -> Option<Dropfile> {
    let l = text::lines(contents);
    if l.len() < 2 {
        None
    } else {
        match (text::number(value(l, 0), 0xff), text::number(value(l, 1), 0xffff_ffff_ffff_ffff)) {
            (Some(comm_type), Some(handle)) => Some(
                Dropfile {
                    comm_type: comm_type as u8,
                    handle: handle as u64,
                    bbs_id: value(l, 3),
                    user_number: number_or_zero(l, 4, 0xffff_ffff) as u32,
                    real_name: value(l, 5),
                    alias: value(l, 6),
                    security: number_or_zero(l, 7, 0xffff_ffff) as u32,
                    minutes_left: number_or_zero(l, 8, 0xffff_ffff) as u32,
                    emulation: number_or_zero(l, 9, 0xff) as u8,
                    node: number_or_zero(l, 10, 0xffff_ffff) as u32,
                },
            ),
            _ => None,
        }
    }
}

/// The inherited socket of a dropfile: only telnet (type 2) has one.
pub open spec fn socket_of(d: Dropfile) -> Option<u64> {
    if d.comm_type == 2 {
        Some(d.handle)
    } else {
        None
    }
}

/// The per-user key of a user number.
pub open spec fn key_of(user_number: u32) -> Option<Seq<char>> {
    if user_number > 0 {
        Some(text::zero_padded(user_number as nat, 4))
    } else {
        None
    }
}

impl Door32 {
    /// The inherited socket handle iff this is a telnet (type 2) connection.
    /// `None` means "no socket: fall back to stdio."
    pub fn socket(&self) -> (r: Option<u64>)
        ensures
            r == socket_of(self@),
    {
        if self.comm_type == 2 {
            Some(self.handle)
        } else {
            None
        }
    }

    /// A stable per-user key for saves/prefs, mirroring Synchronet's `%4`
    /// (zero-padded user number). `None` if the dropfile had no user number.
    pub fn user_key(&self) -> (r: Option<String>)
        ensures
            match r {
                Some(key) => key_of(self.user_number) == Some(key@),
                None => key_of(self.user_number) is None,
            },
    {
        if self.user_number > 0 {
            let mut key = String::new();
            text::push_zero_padded(&mut key, self.user_number as u64, 4);
            Some(key)
        } else {
            None
        }
    }
}

fn line_value(lines: &Vec<Vec<char>>, i: usize) -> (r: Vec<char>)
    ensures
        r@ == value(text::texts(lines@), i as int),
{
    if i < lines.len() {
        assert(text::texts(lines@)[i as int] == lines@[i as int]@);
        text::copy_of(text::trim(lines[i].as_slice()))
    } else {
        Vec::new()
    }
}

fn line_text(lines: &Vec<Vec<char>>, i: usize) -> (r: String)
    ensures
        r@ == value(text::texts(lines@), i as int),
{
    text::string_of(line_value(lines, i).as_slice())
}

fn line_number(lines: &Vec<Vec<char>>, i: usize, max: u64) -> (r: u64)
    ensures
        r == number_or_zero(text::texts(lines@), i as int, max as nat),
        r <= max,
{
    match text::parse_number(line_value(lines, i).as_slice(), max) {
        Some(n) => n,
        None => 0,
    }
}

/// Parse a DOOR32.SYS file. Returns `None` if the first two (required) lines don't
/// parse.
pub fn parse(contents: &str) -> (r: Option<Door32>)
    ensures
        match r {
            Some(d) => dropfile(contents@) == Some(d@),
            None => dropfile(contents@) is None,
        },
{
    let all = text::chars_of(contents);
    let lines = text::split_lines(all.as_slice());
    assert(text::texts(lines@).len() == lines.len());
    if lines.len() < 2 {
        return None;
    }
    let comm_type = text::parse_number(line_value(&lines, 0).as_slice(), 0xff);
    let handle = text::parse_number(line_value(&lines, 1).as_slice(), 0xffff_ffff_ffff_ffff);
    match (comm_type, handle) {
        (Some(comm_type), Some(handle)) => Some(
            Door32 {
                comm_type: comm_type as u8,
                handle,
                bbs_id: line_text(&lines, 3),
                user_number: line_number(&lines, 4, 0xffff_ffff) as u32,
                real_name: line_text(&lines, 5),
                alias: line_text(&lines, 6),
                security: line_number(&lines, 7, 0xffff_ffff) as u32,
                minutes_left: line_number(&lines, 8, 0xffff_ffff) as u32,
                emulation: line_number(&lines, 9, 0xff) as u8,
                node: line_number(&lines, 10, 0xffff_ffff) as u32,
            },
        ),
        _ => None,
    }
}

// ---------------------------------------------------------------------------
// Laws
// ---------------------------------------------------------------------------

/// Two users never share a key, and a key is digits only, at least four of them.
pub proof fn law_user_keys_are_distinct(a: u32, b: u32)
    requires
        a > 0,
        b > 0,
    ensures
        key_of(a) == key_of(b) ==> a == b,
        text::is_digits(key_of(a)->0),
        (key_of(a)->0).len() >= 4,
{
    text::lemma_zero_padded(a as nat, 4);
    text::lemma_zero_padded(b as nat, 4);
}

/// Only a telnet connection has a socket: on any other the door falls back to
/// stdio.
pub proof fn law_only_telnet_has_a_socket(d: Dropfile)
    ensures
        socket_of(d) is Some <==> d.comm_type == 2,
{
}

/// A dropfile of eleven lines (connection, handle, speed, board, user number, real name,
/// alias, security level, minutes, emulation, node) is read line by line.
pub proof fn law_dropfile_is_read_line_by_line(contents: Seq<char>, d: Dropfile, baud: Seq<char>)
    requires
        text::trimmed(d.bbs_id) == d.bbs_id,
        text::trimmed(d.real_name) == d.real_name,
        text::trimmed(d.alias) == d.alias,
        text::lines(contents) == seq![
            text::decimal(d.comm_type as nat),
            text::decimal(d.handle as nat),
            baud,
            d.bbs_id,
            text::decimal(d.user_number as nat),
            d.real_name,
            d.alias,
            text::decimal(d.security as nat),
            text::decimal(d.minutes_left as nat),
            text::decimal(d.emulation as nat),
            text::decimal(d.node as nat),
        ],
    ensures
        dropfile(contents) == Some(d),
{
    lemma_number_line(d.comm_type as nat, 0xff);
    lemma_number_line(d.handle as nat, 0xffff_ffff_ffff_ffff);
    lemma_number_line(d.user_number as nat, 0xffff_ffff);
    lemma_number_line(d.security as nat, 0xffff_ffff);
    lemma_number_line(d.minutes_left as nat, 0xffff_ffff);
    lemma_number_line(d.emulation as nat, 0xff);
    lemma_number_line(d.node as nat, 0xffff_ffff);
}

proof fn lemma_number_line(n: nat, max: nat)
    requires
        n <= max,
    ensures
        text::trimmed(text::decimal(n)) == text::decimal(n),
        text::number(text::decimal(n), max) == Some(n),
{
    let s = text::decimal(n);
    text::lemma_decimal(n);
    text::lemma_number_of_decimal(n, max);
    assert(text::is_digit(s[0]));
    assert(text::is_digit(s[s.len() - 1]));
}

/// Of a dropfile only the first two lines are needed: the others count as empty or zero
/// where they are missing. Without them it is none.
pub proof fn law_short_dropfile(contents: Seq<char>, comm_type: u8, handle: u64)
    ensures
        text::lines(contents) == seq![
            text::decimal(comm_type as nat),
            text::decimal(handle as nat),
        ] ==> dropfile(contents) == Some(
            Dropfile {
                comm_type,
                handle,
                bbs_id: Seq::empty(),
                user_number: 0,
                real_name: Seq::empty(),
                alias: Seq::empty(),
                security: 0,
                minutes_left: 0,
                emulation: 0,
                node: 0,
            },
        ),
        text::lines(contents).len() < 2 ==> dropfile(contents) is None,
{
    lemma_number_line(comm_type as nat, 0xff);
    lemma_number_line(handle as nat, 0xffff_ffff_ffff_ffff);
}

/// The socket of a telnet connection is the handle that the board passed.
pub proof fn law_socket_is_the_handle(d: Dropfile)
    requires
        d.comm_type == 2,
    ensures
        socket_of(d) == Some(d.handle),
{
}

/// The key of a user is the number, padded with zeros to four digits; number 0 has none.
pub proof fn law_user_key_is_the_padded_number(n: u32)
    ensures
        n == 0 ==> key_of(n) is None,
        n > 0 ==> key_of(n) == Some(text::zeros(4 - text::decimal(n as nat).len()) + text::decimal(
            n as nat,
        )),
        n > 0 ==> (key_of(n) matches Some(k) && text::digits_value(k) == n),
{
    text::lemma_zero_padded(n as nat, 4);
}

/// A line that is there is read without the blanks round it, and one that is missing is
/// empty, and zero where a number is wanted.
pub proof fn law_missing_lines(lines: Seq<Seq<char>>, i: int, max: nat)
    requires
        0 <= i,
    ensures
        i < lines.len() ==> value(lines, i) == text::trimmed(lines[i]),
        i >= lines.len() ==> value(lines, i) == Seq::<char>::empty() && number_or_zero(
            lines,
            i,
            max,
        ) == 0,
{
}

} // verus!
