//! Canonical `host:port` form of a user-supplied address.

use vstd::prelude::*;
use vstd::string::*;

verus! {

/// Why an address was refused.
#[derive(Debug, Clone, Copy, PartialEq, Eq, Structural)]
pub enum AddrError {
    /// The address holds more than one `:`.
    TooManyColons,
}

impl AddrError {
    /// The diagnostic shown to the user.
    pub fn message(&self) -> (r: String)
        ensures
            r@ == "too many \":\" in addrs"@,
    {
        String::from_str("too many \":\" in addrs")
    }
}

/// The host that stands for "every local address".
pub open spec fn any_host() -> Seq<char> {
    seq!['0', '.', '0', '.', '0', '.', '0']
}

/// How many `:` the text holds.
pub open spec fn colon_count(s: Seq<char>) -> nat
    decreases s.len(),
{
    if s.len() == 0 {
        0
    } else {
        colon_count(s.drop_last()) + if s.last() == ':' {
            1nat
        } else {
            0nat
        }
    }
}

/// The canonical form of `addr`, or `None` where it is malformed.
///
/// Without a `:` the default port is appended. With one `:`, an empty host
/// becomes `0.0.0.0` and, beside it, an empty port becomes the default port;
/// an address with a host is kept as it is. More than one `:` is malformed.
pub open spec fn normalized(addr: Seq<char>, default_port: Seq<char>) -> Option<Seq<char>> {
    if colon_count(addr) == 0 {
        Some(addr + seq![':'] + default_port)
    } else if colon_count(addr) == 1 {
        if addr.first() == ':' {
            let port = addr.skip(1);
            if port.len() == 0 {
                Some(any_host() + seq![':'] + default_port)
            } else {
                Some(any_host() + seq![':'] + port)
            }
        } else {
            Some(addr)
        }
    } else {
        None
    }
}

/// Rewrites `addr` to its canonical `host:port` form. A malformed address is
/// refused and left as it was.
pub fn normalize_addr(addr: &mut String, default_port: &str) -> (r: Result<(), AddrError>)
    ensures
        match normalized(old(addr)@, default_port@) {
            Some(s) => r is Ok && final(addr)@ == s,
            None => r == Err::<(), AddrError>(AddrError::TooManyColons) && final(addr)@ == old(
                addr,
            )@,
        },
{
    let len: usize = addr.as_str().unicode_len();
    let mut colons: u8 = 0;
    let mut i: usize = 0;
    while i < len
        invariant
            i <= len,
            len == addr@.len(),
            colons <= 2,
            colons < 2 ==> colons == colon_count(addr@.take(i as int)),
            colons == 2 ==> colon_count(addr@.take(i as int)) >= 2,
        decreases len - i,
    {
        let c = addr.as_str().get_char(i);
        proof {
            assert(addr@.take(i + 1).drop_last() == addr@.take(i as int));
            assert(addr@.take(i + 1).last() == c);
        }
        if c == ':' && colons < 2 {
            colons = colons + 1;
        }
        i = i + 1;
    }
    proof {
        assert(addr@.take(len as int) == addr@);
        reveal_strlit(":");
        reveal_strlit("0.0.0.0:");
    }
    if colons >= 2 {
        return Err(AddrError::TooManyColons);
    }
    if colons == 0 {
        addr.append(":");
        addr.append(default_port);
        assert(addr@ == old(addr)@ + seq![':'] + default_port@);
        return Ok(());
    }
    let first = addr.as_str().get_char(0);
    if first == ':' {
        let mut canonical = String::from_str("0.0.0.0:");
        assert(canonical@ == any_host() + seq![':']);
        if len == 1 {
            canonical.append(default_port);
        } else {
            let port = addr.as_str().substring_char(1, len);
            assert(port@ == addr@.skip(1));
            canonical.append(port);
        }
        *addr = canonical;
    }
    Ok(())
}

/// The colons of a concatenation are those of its parts.
pub proof fn lemma_colon_count_concat(a: Seq<char>, b: Seq<char>)
    ensures
        colon_count(a + b) == colon_count(a) + colon_count(b),
    decreases b.len(),
{
    if b.len() == 0 {
        assert(a + b =~= a);
    } else {
        lemma_colon_count_concat(a, b.drop_last());
        assert((a + b).drop_last() =~= a + b.drop_last());
    }
}

/// Where the default port holds no `:`, a canonical form holds exactly one.
pub proof fn lemma_normalized_one_colon(addr: Seq<char>, default_port: Seq<char>)
    requires
        colon_count(default_port) == 0,
    ensures
        normalized(addr, default_port) matches Some(s) ==> colon_count(s) == 1,
{
    let sep = seq![':'];
    assert(colon_count(sep) == 1) by {
        reveal_with_fuel(colon_count, 2);
    }
    assert(colon_count(any_host()) == 0) by {
        reveal_with_fuel(colon_count, 8);
    }
    if colon_count(addr) == 0 {
        lemma_colon_count_concat(addr, sep);
        lemma_colon_count_concat(addr + sep, default_port);
    } else if colon_count(addr) == 1 && addr.first() == ':' {
        let port = addr.skip(1);
        assert(colon_count(addr) > 0 ==> addr.len() > 0);
        assert(addr =~= sep + port);
        lemma_colon_count_concat(sep, port);
        lemma_colon_count_concat(any_host(), sep);
        lemma_colon_count_concat(any_host() + sep, default_port);
        lemma_colon_count_concat(any_host() + sep, port);
    }
}

/// Where the default port holds no `:`, the canonical form of an address
/// that is not empty is its own canonical form.
pub proof fn lemma_normalized_idempotent(addr: Seq<char>, default_port: Seq<char>)
    requires
        colon_count(default_port) == 0,
        addr.len() > 0,
    ensures
        normalized(addr, default_port) matches Some(s) ==> normalized(s, default_port) == Some(s),
{
    lemma_normalized_one_colon(addr, default_port);
    let sep = seq![':'];
    if colon_count(addr) == 0 {
        let s = addr + sep + default_port;
        assert(addr.first() != ':') by {
            if addr.first() == ':' {
                assert(addr =~= sep + addr.skip(1));
                lemma_colon_count_concat(sep, addr.skip(1));
                reveal_with_fuel(colon_count, 2);
            }
        }
        assert(s.first() == addr.first());
    } else if colon_count(addr) == 1 && addr.first() == ':' {
        let port = addr.skip(1);
        assert((any_host() + sep + default_port).first() == '0');
        assert((any_host() + sep + port).first() == '0');
    }
}

} // verus!
