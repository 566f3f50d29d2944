//! Bind addresses: telling a TCP address from a Unix socket path, and
//! resolving the path that a Unix listener binds.
//!
//! The rule that tells the two apart is a heuristic. An address is TCP when it
//! starts with `:` or when the text after its last `:` reads as an unsigned
//! 16-bit integer; anything else is a socket path. An IPv6 literal without a
//! port, or a file name that ends in `:` and digits, is therefore taken for
//! what it is not.

use crate::text::chars_of;
use vstd::prelude::*;
use vstd::string::StringExecFns;

verus! {

/// `c` is one of the ASCII digits `0` to `9`.
pub open spec fn is_digit(c: char) -> bool {
    '0' <= c <= '9'
}

/// Every character of `s` is an ASCII digit.
pub open spec fn all_digits(s: Seq<char>) -> bool {
    forall|i: int| 0 <= i < s.len() ==> is_digit(#[trigger] s[i])
}

/// The number that the digit `c` stands for.
pub open spec fn digit_value(c: char) -> nat {
    (c as nat - 48) as nat
}

/// The number that the digits `s` spell in base ten; leading zeros count for nothing.
pub open spec fn decimal_value(s: Seq<char>) -> nat
    decreases s.len(),
{
    if s.len() == 0 {
        0
    } else {
        decimal_value(s.drop_last()) * 10 + digit_value(s.last())
    }
}

/// `s` without the one `+` sign that may lead it.
pub open spec fn unsigned_part(s: Seq<char>) -> Seq<char> {
    if s.len() > 0 && s[0] == '+' {
        s.skip(1)
    } else {
        s
    }
}

/// `s` is one or more digits whose value fits in 16 bits.
pub open spec fn port_digits(s: Seq<char>) -> bool {
    s.len() > 0 && all_digits(s) && decimal_value(s) <= 65535
}

/// `s` reads as an unsigned 16-bit integer: an optional `+`, then one or more
/// digits whose value is at most 65535.
pub open spec fn parses_as_port(s: Seq<char>) -> bool {
    port_digits(unsigned_part(s))
}

/// The index of the last `c` in `s`, or -1 where `s` holds none.
pub open spec fn last_index_of(s: Seq<char>, c: char) -> int
    decreases s.len(),
{
    if s.len() == 0 {
        -1
    } else if s.last() == c {
        s.len() - 1
    } else {
        last_index_of(s.drop_last(), c)
    }
}

/// What follows the last `:` of `a`; all of `a` where it holds no `:`.
pub open spec fn final_segment(a: Seq<char>) -> Seq<char> {
    a.skip(last_index_of(a, ':') + 1)
}

/// `a` starts with `:`, the form of a bare port.
pub open spec fn starts_with_colon(a: Seq<char>) -> bool {
    a.len() > 0 && a[0] == ':'
}

/// The classification rule: `a` names a TCP endpoint.
pub open spec fn is_tcp_address(a: Seq<char>) -> bool {
    starts_with_colon(a) || (a.contains(':') && parses_as_port(final_segment(a)))
}

/// `p` is an absolute path: it starts with `/`.
pub open spec fn is_absolute(p: Seq<char>) -> bool {
    p.len() > 0 && p[0] == '/'
}

/// `a` is a relative socket path, so binding it takes a base directory.
pub open spec fn needs_base_directory(a: Seq<char>) -> bool {
    !is_tcp_address(a) && !is_absolute(a)
}

/// The path that `std::path::Path::join` gives for `base` joined with `path`,
/// on the platform the library is built for.
pub uninterp spec fn platform_join(base: Seq<char>, path: Seq<char>) -> Seq<char>;

/// The socket path that goes with address `a` when the base directory is `base`.
pub open spec fn resolved_path(a: Seq<char>, base: Seq<char>) -> Seq<char> {
    if needs_base_directory(a) {
        platform_join(base, a)
    } else {
        a
    }
}

/// Where a server binds.
#[derive(Debug, PartialEq, Eq)]
pub enum BindTarget {
    /// A TCP endpoint, as the `host:port` or `:port` text it was given.
    Tcp { address: String },
    /// A Unix domain socket at this path.
    UnixPath { path: String },
}

/// The mathematical value of a [`BindTarget`].
pub enum BindTargetView {
    Tcp { address: Seq<char> },
    UnixPath { path: Seq<char> },
}

impl View for BindTarget {
    type V = BindTargetView;

    open spec fn view(&self) -> BindTargetView {
        match self {
            BindTarget::Tcp { address } => BindTargetView::Tcp { address: address@ },
            BindTarget::UnixPath { path } => BindTargetView::UnixPath { path: path@ },
        }
    }
}

/// The bind target of address `a` with base directory `base`.
pub open spec fn bind_target_of(a: Seq<char>, base: Seq<char>) -> BindTargetView {
    if is_tcp_address(a) {
        BindTargetView::Tcp { address: a }
    } else {
        BindTargetView::UnixPath { path: resolved_path(a, base) }
    }
}

/// The facts that pin `last_index_of` down.
pub proof fn lemma_last_index_of(s: Seq<char>, c: char)
    ensures
        -1 <= last_index_of(s, c) < s.len(),
        last_index_of(s, c) >= 0 ==> s[last_index_of(s, c)] == c,
        forall|j: int| last_index_of(s, c) < j < s.len() ==> s[j] != c,
        last_index_of(s, c) >= 0 <==> s.contains(c),
    decreases s.len(),
{
    if s.len() == 0 {
    } else if s.last() == c {
        assert(s[s.len() - 1] == c);
    } else {
        let t = s.drop_last();
        lemma_last_index_of(t, c);
        assert forall|j: int| last_index_of(s, c) < j < s.len() implies s[j] != c by {
            if j < t.len() {
                assert(t[j] == s[j]);
            }
        }
        if last_index_of(t, c) >= 0 {
            assert(s[last_index_of(t, c)] == c);
        }
        if s.contains(c) {
            let k = choose|k: int| 0 <= k < s.len() && s[k] == c;
            assert(t[k] == c);
        }
    }
}

/// A `c` with none after it is the last one.
pub proof fn lemma_last_index_is(s: Seq<char>, c: char, k: int)
    requires
        0 <= k < s.len(),
        s[k] == c,
        forall|j: int| k < j < s.len() ==> s[j] != c,
    ensures
        last_index_of(s, c) == k,
{
    lemma_last_index_of(s, c);
}

/// Digits of a prefix spell a number no larger than the digits of the whole.
pub proof fn lemma_decimal_value_prefix(s: Seq<char>, k: int)
    requires
        0 <= k <= s.len(),
    ensures
        decimal_value(s.take(k)) <= decimal_value(s),
    decreases s.len() - k,
{
    if k == s.len() {
        assert(s.take(k) =~= s);
    } else {
        lemma_decimal_value_prefix(s.drop_last(), k);
        assert(s.drop_last().take(k) =~= s.take(k));
    }
}

/// `a` has the shape `:port` or `host:port`: one `:`, nothing but digits after
/// it, and those digits spell a number that fits in 16 bits.
pub open spec fn matches_port_pattern(a: Seq<char>) -> bool {
    exists|k: int|
        0 <= k < a.len() && a[k] == ':' && !a.take(k).contains(':') && port_digits(
            #[trigger] a.skip(k + 1),
        )
}

/// `a` is outside the `host:port` shape and still classified as TCP: it starts
/// with `:`, or the text after its last `:` reads as a port while an earlier
/// `:` or a `+` sign keeps it out of the shape.
pub open spec fn tcp_outside_pattern(a: Seq<char>) -> bool {
    ||| starts_with_colon(a)
    ||| (a.contains(':') && parses_as_port(final_segment(a)) && (a.take(
        last_index_of(a, ':'),
    ).contains(':') || final_segment(a)[0] == '+'))
}

/// Every address of the shape `:port` or `host:port`, with a port that fits in
/// 16 bits, is classified as TCP.
pub proof fn lemma_port_pattern_is_tcp(a: Seq<char>)
    requires
        matches_port_pattern(a),
    ensures
        is_tcp_address(a),
{
    let k = choose|k: int|
        0 <= k < a.len() && a[k] == ':' && !a.take(k).contains(':') && port_digits(
            #[trigger] a.skip(k + 1),
        );
    let digits = a.skip(k + 1);
    assert forall|j: int| k < j < a.len() implies a[j] != ':' by {
        assert(is_digit(digits[j - (k + 1)]));
    }
    lemma_last_index_is(a, ':', k);
    assert(is_digit(digits[0]));
    assert(unsigned_part(digits) == digits);
    assert(a.contains(':'));
}

/// An address outside the shape `:port` or `host:port` is classified as a Unix
/// socket path, unless it starts with `:`, or ends in a port behind a second
/// `:` or behind a `+` sign.
pub proof fn lemma_other_addresses_are_unix(a: Seq<char>)
    requires
        !matches_port_pattern(a),
        !tcp_outside_pattern(a),
    ensures
        !is_tcp_address(a),
{
    if a.contains(':') && parses_as_port(final_segment(a)) {
        lemma_last_index_of(a, ':');
        let k = last_index_of(a, ':');
        let segment = final_segment(a);
        assert(segment.len() > 0) by {
            if segment.len() == 0 {
                assert(unsigned_part(segment).len() == 0);
            }
        }
        assert(segment[0] != '+');
        assert(unsigned_part(segment) == segment);
        assert(port_digits(a.skip(k + 1)));
        assert(matches_port_pattern(a));
    }
}

/// The classification, laid out: an address is TCP exactly when it has the
/// shape `:port` or `host:port`, or is one of the addresses that the rule takes
/// for TCP outside that shape.
pub proof fn lemma_tcp_classification(a: Seq<char>)
    ensures
        is_tcp_address(a) <==> (matches_port_pattern(a) || tcp_outside_pattern(a)),
{
    if matches_port_pattern(a) {
        lemma_port_pattern_is_tcp(a);
    }
    if !matches_port_pattern(a) && !tcp_outside_pattern(a) {
        lemma_other_addresses_are_unix(a);
    }
}

/// Whether `chars[from..]` reads as an unsigned 16-bit integer.
fn segment_is_port(chars: &Vec<char>, from: usize) -> (ok: bool)
    requires
        from <= chars.len(),
    ensures
        ok == parses_as_port(chars@.skip(from as int)),
{
    let ghost segment = chars@.skip(from as int);
    let mut start: usize = from;
    if start < chars.len() && chars[start] == '+' {
        start = start + 1;
    }
    let ghost digits = chars@.skip(start as int);
    proof {
        assert(digits =~= unsigned_part(segment));
    }
    if start == chars.len() {
        return false;
    }
    let mut value: u32 = 0;
    let mut i: usize = start;
    while i < chars.len()
        invariant
            start <= i <= chars.len(),
            digits == chars@.skip(start as int),
            digits == unsigned_part(chars@.skip(from as int)),
            digits.len() > 0,
            all_digits(digits.take(i - start)),
            value == decimal_value(digits.take(i - start)),
            value <= 65535,
        decreases chars.len() - i,
    {
        let c: char = chars[i];
        proof {
            assert(digits[i - start] == chars@[i as int]);
            assert(digits.take(i - start + 1).drop_last() =~= digits.take(i - start));
            assert(digits.take(i - start + 1).last() == chars@[i as int]);
        }
        if c < '0' || c > '9' {
            assert(!is_digit(digits[i - start]));
            return false;
        }
        value = value * 10 + (c as u32 - 48);
        if value > 65535 {
            proof {
                lemma_decimal_value_prefix(digits, i - start + 1);
            }
            return false;
        }
        proof {
            assert forall|j: int| 0 <= j < i - start + 1 implies is_digit(
                #[trigger] digits.take(i - start + 1)[j],
            ) by {
                if j < i - start {
                    assert(digits.take(i - start)[j] == digits[j]);
                }
            }
        }
        i = i + 1;
    }
    proof {
        assert(digits.take(i - start) =~= digits);
    }
    true
}

/// Classifies a bind address: `true` for TCP, `false` for a Unix socket path.
///
/// The address is TCP if it starts with `:`, or if it holds a `:` and what
/// follows the last one reads as an unsigned 16-bit integer.
pub fn is_tcp(address: &str) -> (tcp: bool)
    ensures
        tcp == is_tcp_address(address@),
{
    let chars = chars_of(address);
    if chars.len() > 0 && chars[0] == ':' {
        return true;
    }
    let mut last: Option<usize> = None;
    let mut i: usize = 0;
    while i < chars.len()
        invariant
            i <= chars.len(),
            match last {
                Some(k) => k as int == last_index_of(chars@.take(i as int), ':'),
                None => last_index_of(chars@.take(i as int), ':') == -1,
            },
        decreases chars.len() - i,
    {
        proof {
            assert(chars@.take(i + 1).drop_last() =~= chars@.take(i as int));
            assert(chars@.take(i + 1).last() == chars@[i as int]);
        }
        if chars[i] == ':' {
            last = Some(i);
        }
        i = i + 1;
    }
    proof {
        assert(chars@.take(i as int) =~= chars@);
        lemma_last_index_of(chars@, ':');
    }
    match last {
        None => false,
        Some(k) => segment_is_port(&chars, k + 1),
    }
}

/// Whether binding `address` takes a base directory: it does for a socket path
/// that is not absolute.
pub fn needs_base(address: &str) -> (needed: bool)
    ensures
        needed == needs_base_directory(address@),
{
    if is_tcp(address) {
        return false;
    }
    let chars = chars_of(address);
    !(chars.len() > 0 && chars[0] == '/')
}

/// `std::path::Path::join`, from text to text: the result is the platform's
/// join of `base` and `path`. Both are valid UTF-8, so turning the joined path
/// back into a string loses nothing.
#[verifier::external_body]
fn join_path(base: &str, path: &str) -> (joined: String)
    ensures
        joined@ == platform_join(base@, path@),
{
    std::path::Path::new(base).join(path).to_string_lossy().to_string()
}

/// The path a Unix listener binds for `address`: a relative socket path is
/// joined to `base_dir`, anything else is returned as it is.
pub fn resolve_socket_path(address: &str, base_dir: &str) -> (path: String)
    ensures
        path@ == resolved_path(address@, base_dir@),
        is_absolute(address@) ==> path@ == address@,
        needs_base_directory(address@) ==> path@ == platform_join(base_dir@, address@),
{
    if needs_base(address) {
        join_path(base_dir, address)
    } else {
        address.to_string()
    }
}

/// The bind target of `address`: the TCP endpoint it names, or the Unix socket
/// path it resolves to under `base_dir`.
pub fn bind_target(address: &str, base_dir: &str) -> (target: BindTarget)
    ensures
        target@ == bind_target_of(address@, base_dir@),
{
    if is_tcp(address) {
        BindTarget::Tcp { address: address.to_string() }
    } else {
        BindTarget::UnixPath { path: resolve_socket_path(address, base_dir) }
    }
}

/// The address that a TCP listener binds for `a`: a bare port is bound on
/// every interface, anything else as it is written.
pub open spec fn tcp_bind_text(a: Seq<char>) -> Seq<char> {
    if starts_with_colon(a) {
        "0.0.0.0"@ + a
    } else {
        a
    }
}

/// The address to bind for the TCP address `address`: `0.0.0.0` is put before
/// a bare port, and a host with a port is kept as it is.
pub fn tcp_bind_address(address: &str) -> (bound: String)
    ensures
        bound@ == tcp_bind_text(address@),
{
    let chars = chars_of(address);
    if chars.len() > 0 && chars[0] == ':' {
        String::from_str("0.0.0.0").concat(address)
    } else {
        address.to_string()
    }
}

/// A server that could not start: binding failed, or the base directory for
/// a relative socket path could not be had. Startup ends there; nothing is
/// tried again.
#[derive(Debug, PartialEq, Eq)]
pub struct BindError {
    /// What went wrong, with the message of the operating system.
    pub message: String,
}

/// What is said when binding `target` fails with `os_message`.
pub open spec fn bind_failure_text(target: BindTargetView, os_message: Seq<char>) -> Seq<char> {
    match target {
        BindTargetView::Tcp { address } => "Failed to bind to TCP "@ + address + ": "@ + os_message,
        BindTargetView::UnixPath { path } => "Failed to bind to Unix socket "@ + path + ": "@
            + os_message,
    }
}

/// The error for a bind of `target` that failed with `os_message`.
pub fn bind_failure(target: &BindTarget, os_message: &str) -> (error: BindError)
    ensures
        error.message@ == bind_failure_text(target@, os_message@),
{
    let mut message = match target {
        BindTarget::Tcp { address } => String::from_str("Failed to bind to TCP ").concat(
            address.as_str(),
        ),
        BindTarget::UnixPath { path } => String::from_str("Failed to bind to Unix socket ").concat(
            path.as_str(),
        ),
    };
    message.append(": ");
    message.append(os_message);
    BindError { message }
}

/// The error for a base directory that could not be had, with `os_message`.
pub fn base_directory_failure(os_message: &str) -> (error: BindError)
    ensures
        error.message@ == "Failed to get current directory: "@ + os_message@,
{
    BindError { message: String::from_str("Failed to get current directory: ").concat(os_message) }
}

} // verus!
