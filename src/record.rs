//! The data model of SPF records, directives and the resources needed to
//! evaluate them.

use vstd::prelude::*;

use crate::encoding::chars_of;

verus! {

/// What to do with a message when a directive matches.
#[derive(Debug, Copy, Clone, PartialEq, Eq, Structural, PartialOrd, Ord, Hash)]
pub enum SpfAction {
    /// `+`
    Pass,
    /// `-`
    Fail,
    /// `~`
    SoftFail,
    /// `?`
    Neutral,
}

/// The qualifier character of an action.
pub open spec fn action_char(a: SpfAction) -> char {
    match a {
        SpfAction::Pass => '+',
        SpfAction::Fail => '-',
        SpfAction::SoftFail => '~',
        SpfAction::Neutral => '?',
    }
}

/// The action whose qualifier character is `c`, if any.
pub open spec fn action_of_char(c: char) -> Option<SpfAction> {
    if c == '+' {
        Some(SpfAction::Pass)
    } else if c == '-' {
        Some(SpfAction::Fail)
    } else if c == '~' {
        Some(SpfAction::SoftFail)
    } else if c == '?' {
        Some(SpfAction::Neutral)
    } else {
        None
    }
}

impl SpfAction {
    /// The action written as the qualifier `c`.
    pub fn try_from_char(c: char) -> (r: Result<SpfAction, ()>)
        ensures
            r == (match action_of_char(c) {
                Some(a) => Ok(a),
                None => Err(()),
            }),
    {
        if c == '+' {
            Ok(SpfAction::Pass)
        } else if c == '-' {
            Ok(SpfAction::Fail)
        } else if c == '~' {
            Ok(SpfAction::SoftFail)
        } else if c == '?' {
            Ok(SpfAction::Neutral)
        } else {
            Err(())
        }
    }

    /// The action written as the qualifier byte `b`.
    pub fn try_from_byte(b: u8) -> (r: Result<SpfAction, ()>)
        ensures
            r == (match action_of_char(b as char) {
                Some(a) => Ok(a),
                None => Err(()),
            }),
    {
        SpfAction::try_from_char(b as char)
    }

    /// The qualifier character of this action.
    pub fn into_char(self) -> (r: char)
        ensures
            r == action_char(self),
            action_of_char(r) == Some(self),
    {
        match self {
            SpfAction::Pass => '+',
            SpfAction::Fail => '-',
            SpfAction::SoftFail => '~',
            SpfAction::Neutral => '?',
        }
    }

    /// The qualifier byte of this action.
    pub fn into_byte(self) -> (r: u8)
        ensures
            r as char == action_char(self),
    {
        match self {
            SpfAction::Pass => 0x2bu8,
            SpfAction::Fail => 0x2du8,
            SpfAction::SoftFail => 0x7eu8,
            SpfAction::Neutral => 0x3fu8,
        }
    }
}

impl Default for SpfAction {
    /// A directive without a qualifier passes.
    fn default() -> (r: SpfAction)
        ensures
            r == SpfAction::Pass,
    {
        SpfAction::Pass
    }
}

/// The kind of a directive, telling what its contents are.
#[derive(Debug, Copy, Clone, PartialEq, Eq, Structural, PartialOrd, Ord, Hash)]
pub enum SpfDirectiveKind {
    /// The A records of a domain.
    A,
    /// The AAAA records of a domain.
    AAAA,
    /// An IPv4 address or range, such as `192.0.2.0/24`.
    IPv4,
    /// An IPv6 address or range.
    IPv6,
}

/// The prefix lengths that may follow a domain: one for IPv4 addresses and
/// one for IPv6 addresses, as in `a:example.com/24//64`.
#[derive(Debug, Copy, Clone, PartialEq, Eq, Structural, Hash)]
pub struct DualCidrLength {
    pub v4: Option<u8>,
    pub v6: Option<u8>,
}

/// A rule that may or may not match a sender.
#[derive(Debug, Clone, PartialEq, Eq)]
pub enum SpfMechanism {
    A(Option<String>, DualCidrLength),
    AAAA(Option<String>, DualCidrLength),
    MX(Option<String>, DualCidrLength),
    /// An IPv4 address, as its four bytes in network order, and the length in
    /// bits of the range to check (at most 32).
    Ipv4([u8; 4], Option<u8>),
    /// An IPv6 address, as its sixteen bytes in network order, and the length
    /// in bits of the range to check (at most 128).
    Ipv6([u8; 16], Option<u8>),
    Include(String),
    /// A macro string naming a domain whose existence is checked.
    Exists(String),
    /// A macro string naming the domain to redirect to.
    Redirect(String),
    /// A modifier that RFC 7208 does not define: its name and value.
    UnknownModifier(String, String),
    /// An explanation, which may hold macros.
    Exp(String),
    All,
}

/// One directive of a record.
#[derive(Debug, Clone, PartialEq, Eq)]
pub struct SpfDirective {
    /// What to do when the mechanism matches.
    pub qualifier: SpfAction,
    /// Whether the directive applies to a sender.
    pub mechanism: SpfMechanism,
}

/// The directives of one SPF policy.
#[derive(Debug, Clone, PartialEq, Eq)]
pub struct SpfRecord {
    /// The directives, in the order they are written.
    pub directives: Vec<SpfDirective>,
}

impl SpfRecord {
    /// One record with the directives of `self` followed by those of `other`,
    /// as when a policy is spread over several TXT records.
    pub fn join(self, other: SpfRecord) -> (r: SpfRecord)
        ensures
            r.directives@ == self.directives@ + other.directives@,
    {
        let mut d = self.directives;
        let mut rest = other.directives;
        d.append(&mut rest);
        SpfRecord { directives: d }
    }
}

/// The ASCII lowercase form of `c`.
pub open spec fn ascii_lower(c: char) -> char {
    if 'A' <= c && c <= 'Z' {
        ((c as u32 + 32) as u8) as char
    } else {
        c
    }
}

/// Every character of `s` is ASCII.
pub open spec fn is_ascii_text(s: Seq<char>) -> bool {
    forall|i: int| 0 <= i < s.len() ==> #[trigger] s[i] <= '\u{7f}'
}

/// The version tag that every SPF record starts with.
pub open spec fn version_tag() -> Seq<char> {
    seq!['v', '=', 's', 'p', 'f', '1']
}

/// `s` starts with the version tag, in any case.
pub open spec fn has_version_tag(s: Seq<char>) -> bool {
    s.len() >= 6 && forall|i: int| 0 <= i < 6 ==> ascii_lower(#[trigger] s[i]) == version_tag()[i]
}

impl SpfRecord {
    /// Checks that `orig_s` is an ASCII SPF record of version 1. Reading the
    /// directives that follow the version tag is not implemented: a record
    /// that passes the checks has no directives.
    pub fn parse_str(orig_s: &str) -> (r: Result<SpfRecord, SpfParseError>)
        ensures
            !is_ascii_text(orig_s@) ==> r == Err::<SpfRecord, SpfParseError>(SpfParseError::InvalidCharFound),
            is_ascii_text(orig_s@) && !has_version_tag(orig_s@) ==> r == Err::<SpfRecord, SpfParseError>(
                SpfParseError::InvalidRecordKind,
            ),
            is_ascii_text(orig_s@) && has_version_tag(orig_s@) ==> r is Ok && r->Ok_0.directives@.len() == 0,
    {
        let s = chars_of(orig_s);
        let mut i: usize = 0;
        while i < s.len()
            invariant
                s@ == orig_s@,
                i <= s@.len(),
                forall|j: int| 0 <= j < i ==> #[trigger] s@[j] <= '\u{7f}',
            decreases s.len() - i,
        {
            if s[i] > '\u{7f}' {
                return Err(SpfParseError::InvalidCharFound);
            }
            i = i + 1;
        }
        if s.len() < 6 {
            return Err(SpfParseError::InvalidRecordKind);
        }
        let tag: [char; 6] = ['v', '=', 's', 'p', 'f', '1'];
        let mut k: usize = 0;
        while k < 6
            invariant
                s@ == orig_s@,
                s@.len() >= 6,
                k <= 6,
                tag@ == version_tag(),
                is_ascii_text(orig_s@),
                forall|j: int| 0 <= j < k ==> ascii_lower(#[trigger] s@[j]) == version_tag()[j],
            decreases 6 - k,
        {
            let c = s[k];
            let lower = if 'A' <= c && c <= 'Z' { ((c as u32 + 32) as u8) as char } else { c };
            if lower != tag[k] {
                return Err(SpfParseError::InvalidRecordKind);
            }
            k = k + 1;
        }
        Ok(SpfRecord { directives: Vec::new() })
    }
}

/// An outside resource needed to evaluate a directive.
#[derive(Debug, Clone, PartialEq, Eq)]
pub enum ExternalResourceIdentifier {
    /// The source IP of the message.
    SourceIP,
    /// The SPF records of a domain, for `include`.
    SPFFromDomain(String),
    /// Whether the domain `first + "." + second` exists, for `exists`.
    DomainExists(String, String),
}

/// Why an SPF record could not be parsed.
#[derive(Debug, Copy, Clone, PartialEq, Eq, Structural)]
pub enum SpfParseError {
    /// The record does not start with `v=spf1`.
    InvalidRecordKind,
    /// A character that is not allowed, such as one outside ASCII.
    InvalidCharFound,
    /// The text could not be read as a record.
    InvalidFormat,
}

} // verus!
