//! The closed set of SPF macro letters.

use vstd::prelude::*;

verus! {

/// A recognized SPF macro variable. Each variant stands for exactly one
/// lowercase ASCII letter; the variants are declared in the order of their
/// letters, so the derived ordering agrees with the ordering of the letters.
#[derive(Debug, Copy, Clone, PartialEq, Eq, Structural, PartialOrd, Ord, Hash)]
pub enum MacroVariable {
    /// `c`: the SMTP client IP in readable form.
    SmtpClientIp,
    /// `d`: the current domain.
    Domain,
    /// `h`: the HELO/EHLO domain.
    HeloOrEhloDomain,
    /// `i`: the client IP.
    Ip,
    /// `l`: the local part of the sender.
    LocalPartOfSender,
    /// `o`: the domain of the sender.
    DomainOfSender,
    /// `p`: the validated domain name of the client IP.
    ValidatedDomainNameOrIp,
    /// `r`: the domain name of the host performing the check.
    DomainNameOfHostPerformingTheCheck,
    /// `s`: the sender.
    Sender,
    /// `t`: the current timestamp.
    CurrentTimestamp,
    /// `v`: the string `in-addr` or `ip6`.
    InAddr,
}

/// Either a recognized macro variable or the raw byte of a letter that is
/// not one.
#[derive(Debug, Copy, Clone, PartialEq, Eq, Structural, PartialOrd, Ord, Hash)]
pub enum AnyMacroVariable {
    Known(MacroVariable),
    Unknown(u8),
}

/// The lowercase letter of a macro variable.
pub open spec fn letter_of(v: MacroVariable) -> u8 {
    match v {
        MacroVariable::SmtpClientIp => 0x63u8,
        MacroVariable::Domain => 0x64u8,
        MacroVariable::HeloOrEhloDomain => 0x68u8,
        MacroVariable::Ip => 0x69u8,
        MacroVariable::LocalPartOfSender => 0x6cu8,
        MacroVariable::DomainOfSender => 0x6fu8,
        MacroVariable::ValidatedDomainNameOrIp => 0x70u8,
        MacroVariable::DomainNameOfHostPerformingTheCheck => 0x72u8,
        MacroVariable::Sender => 0x73u8,
        MacroVariable::CurrentTimestamp => 0x74u8,
        MacroVariable::InAddr => 0x76u8,
    }
}

/// The macro variable whose letter is `b`, if there is one.
pub open spec fn variable_of(b: u8) -> Option<MacroVariable> {
    if b == 0x63 {
        Some(MacroVariable::SmtpClientIp)
    } else if b == 0x64 {
        Some(MacroVariable::Domain)
    } else if b == 0x68 {
        Some(MacroVariable::HeloOrEhloDomain)
    } else if b == 0x69 {
        Some(MacroVariable::Ip)
    } else if b == 0x6c {
        Some(MacroVariable::LocalPartOfSender)
    } else if b == 0x6f {
        Some(MacroVariable::DomainOfSender)
    } else if b == 0x70 {
        Some(MacroVariable::ValidatedDomainNameOrIp)
    } else if b == 0x72 {
        Some(MacroVariable::DomainNameOfHostPerformingTheCheck)
    } else if b == 0x73 {
        Some(MacroVariable::Sender)
    } else if b == 0x74 {
        Some(MacroVariable::CurrentTimestamp)
    } else if b == 0x76 {
        Some(MacroVariable::InAddr)
    } else {
        None
    }
}

/// The letters of all macro variables, in the order that RFC 7208 lists them.
pub open spec fn valid_lowercase_symbols() -> Seq<u8> {
    seq![0x73u8, 0x6cu8, 0x6fu8, 0x64u8, 0x69u8, 0x70u8, 0x68u8, 0x63u8, 0x72u8, 0x74u8, 0x76u8]
}

/// The canonical form of a possibly unknown variable: a byte that is the
/// letter of a variable becomes that variable.
pub open spec fn canonical(a: AnyMacroVariable) -> AnyMacroVariable {
    match a {
        AnyMacroVariable::Known(v) => AnyMacroVariable::Known(v),
        AnyMacroVariable::Unknown(b) => match variable_of(b) {
            Some(v) => AnyMacroVariable::Known(v),
            None => AnyMacroVariable::Unknown(b),
        },
    }
}

/// Letters and variables correspond one to one.
pub proof fn lemma_letter_round_trip(v: MacroVariable, b: u8)
    ensures
        variable_of(letter_of(v)) == Some(v),
        variable_of(b) == Some(v) <==> b == letter_of(v),
        variable_of(b) is Some <==> valid_lowercase_symbols().contains(b),
{
    let s = valid_lowercase_symbols();
    if variable_of(b) is Some {
        assert(s[0] == 0x73u8 && s[1] == 0x6cu8 && s[2] == 0x6fu8 && s[3] == 0x64u8);
        assert(s[4] == 0x69u8 && s[5] == 0x70u8 && s[6] == 0x68u8 && s[7] == 0x63u8);
        assert(s[8] == 0x72u8 && s[9] == 0x74u8 && s[10] == 0x76u8);
    }
}

impl MacroVariable {
    /// The letters of all macro variables.
    pub fn get_valid_lowercase_symbols() -> (r: &'static [u8])
        ensures
            r@ == valid_lowercase_symbols(),
    {
        let r: &'static [u8] = &[0x73u8, 0x6cu8, 0x6fu8, 0x64u8, 0x69u8, 0x70u8, 0x68u8, 0x63u8, 0x72u8, 0x74u8, 0x76u8];
        assert(r@ =~= valid_lowercase_symbols());
        r
    }

    /// The macro variable whose lowercase letter is `n`.
    pub fn try_from_num(n: u8) -> (r: Result<MacroVariable, ()>)
        ensures
            r == (match variable_of(n) {
                Some(v) => Ok(v),
                None => Err(()),
            }),
    {
        match n {
            0x63u8 => Ok(MacroVariable::SmtpClientIp),
            0x64u8 => Ok(MacroVariable::Domain),
            0x68u8 => Ok(MacroVariable::HeloOrEhloDomain),
            0x69u8 => Ok(MacroVariable::Ip),
            0x6cu8 => Ok(MacroVariable::LocalPartOfSender),
            0x6fu8 => Ok(MacroVariable::DomainOfSender),
            0x70u8 => Ok(MacroVariable::ValidatedDomainNameOrIp),
            0x72u8 => Ok(MacroVariable::DomainNameOfHostPerformingTheCheck),
            0x73u8 => Ok(MacroVariable::Sender),
            0x74u8 => Ok(MacroVariable::CurrentTimestamp),
            0x76u8 => Ok(MacroVariable::InAddr),
            _ => Err(()),
        }
    }

    /// The lowercase letter of this variable.
    pub fn into_num(self) -> (r: u8)
        ensures
            r == letter_of(self),
    {
        match self {
            MacroVariable::SmtpClientIp => 0x63u8,
            MacroVariable::Domain => 0x64u8,
            MacroVariable::HeloOrEhloDomain => 0x68u8,
            MacroVariable::Ip => 0x69u8,
            MacroVariable::LocalPartOfSender => 0x6cu8,
            MacroVariable::DomainOfSender => 0x6fu8,
            MacroVariable::ValidatedDomainNameOrIp => 0x70u8,
            MacroVariable::DomainNameOfHostPerformingTheCheck => 0x72u8,
            MacroVariable::Sender => 0x73u8,
            MacroVariable::CurrentTimestamp => 0x74u8,
            MacroVariable::InAddr => 0x76u8,
        }
    }
}

impl AnyMacroVariable {
    /// Turns an unknown byte that is the letter of a variable into that variable.
    pub fn into_canonical(self) -> (r: AnyMacroVariable)
        ensures
            r == canonical(self),
    {
        match self {
            AnyMacroVariable::Known(v) => AnyMacroVariable::Known(v),
            AnyMacroVariable::Unknown(b) => match MacroVariable::try_from_num(b) {
                Ok(v) => AnyMacroVariable::Known(v),
                Err(_) => AnyMacroVariable::Unknown(b),
            },
        }
    }

    /// The variable, known or not, named by the byte `b`.
    pub fn from_num(b: u8) -> (r: AnyMacroVariable)
        ensures
            r == canonical(AnyMacroVariable::Unknown(b)),
    {
        AnyMacroVariable::Unknown(b).into_canonical()
    }

    /// The letter of the variable, or the raw byte of an unknown one.
    pub fn into_num(self) -> (r: u8)
        ensures
            r == (match self {
                AnyMacroVariable::Known(v) => letter_of(v),
                AnyMacroVariable::Unknown(b) => b,
            }),
    {
        match self {
            AnyMacroVariable::Known(v) => v.into_num(),
            AnyMacroVariable::Unknown(b) => b,
        }
    }
}

} // verus!
