use vstd::prelude::*;
use vstd::string::StringExecFns;
use crate::textutil::to_char_vec;

verus! {

/// Network configuration of the proxy and the administrative web server.
#[derive(Debug, Clone, PartialEq, Eq)]
pub struct NetworkConfig {
    /// Bind address for both listeners, dotted-quad IPv4.
    pub bind_addr: String,
    /// Port of the proxy listener.
    pub proxy_port: u16,
    /// Port of the web listener.
    pub web_port: u16,
    /// Whether the web listener uses TLS.
    pub tls: bool,
    /// Path to a user-supplied TLS certificate, if any.
    pub tls_cert_path: Option<String>,
    /// Path to a user-supplied TLS key, if any.
    pub tls_key_path: Option<String>,
    /// URL to listen on, used only when TLS is enabled.
    pub listen_url: Option<String>,
}

/// What can be wrong with a network configuration.
#[derive(Debug, Clone)]
pub enum NetworkConfigError {
    BindAddressError(String),
    ProxyPortError(String),
    WebPortError(String),
    PortCollisionError(String),
    TlsCertError(String),
    TlsKeyError(String),
}

/// Whether the character is an ASCII digit.
pub open spec fn is_digit(c: char) -> bool {
    48 <= c as u32 <= 57
}

/// The numeric value of a digit string, most significant first.
pub open spec fn digits_val(s: Seq<char>) -> int
    decreases s.len(),
{
    if s.len() == 0 {
        0
    } else {
        digits_val(s.drop_last()) * 10 + (s.last() as u32 - 48)
    }
}

/// A valid dotted-quad octet: one to three digits, no leading zero unless
/// the octet is exactly "0", value at most 255.
pub open spec fn valid_octet(s: Seq<char>) -> bool {
    &&& 1 <= s.len() <= 3
    &&& forall|i: int| 0 <= i < s.len() ==> is_digit(#[trigger] s[i])
    &&& (s.len() > 1 ==> s[0] != '0')
    &&& digits_val(s) <= 255
}

/// Length of the leading dot-free run.
pub open spec fn not_dot_len(s: Seq<char>) -> int
    decreases s.len(),
{
    if s.len() == 0 || s[0] == '.' {
        0
    } else {
        1 + not_dot_len(s.drop_first())
    }
}

/// The dot-separated segments of a string, empties kept.
pub open spec fn split_dots(s: Seq<char>) -> Seq<Seq<char>>
    decreases s.len(),
    via split_dots_decreases
{
    let k = not_dot_len(s);
    if k == s.len() {
        seq![s]
    } else {
        seq![s.take(k)] + split_dots(s.skip(k + 1))
    }
}

#[via_fn]
proof fn split_dots_decreases(s: Seq<char>) {
    lemma_not_dot_len(s);
}

/// The leading run holds no dot and ends at a dot or the end.
proof fn lemma_not_dot_len(s: Seq<char>)
    ensures
        0 <= not_dot_len(s) <= s.len(),
        forall|k: int| 0 <= k < not_dot_len(s) ==> s[k] != '.',
        not_dot_len(s) < s.len() ==> s[not_dot_len(s)] == '.',
    decreases s.len(),
{
    if s.len() == 0 || s[0] == '.' {
    } else {
        lemma_not_dot_len(s.drop_first());
        assert forall|k: int| 0 <= k < not_dot_len(s) implies s[k] != '.' by {
            if k > 0 {
                assert(s.drop_first()[k - 1] == s[k]);
            }
        }
        if not_dot_len(s) < s.len() {
            assert(s.drop_first()[not_dot_len(s) - 1] == s[not_dot_len(s)]);
        }
    }
}

/// A cut with the shape of the leading dot-free run is that run.
proof fn lemma_not_dot_len_is(s: Seq<char>, n: int)
    requires
        0 <= n <= s.len(),
        forall|k: int| 0 <= k < n ==> s[k] != '.',
        n < s.len() ==> s[n] == '.',
    ensures
        not_dot_len(s) == n,
    decreases s.len(),
{
    if s.len() == 0 || s[0] == '.' {
    } else {
        assert(n > 0);
        lemma_not_dot_len_is(s.drop_first(), n - 1);
    }
}

/// A valid IPv4 dotted quad: exactly four valid octets separated by dots.
pub open spec fn is_ipv4(s: Seq<char>) -> bool {
    let segs = split_dots(s);
    segs.len() == 4 && forall|i: int| 0 <= i < 4 ==> valid_octet(#[trigger] segs[i])
}

/// Checks one segment.
fn check_octet(seg: &Vec<char>) -> (r: bool)
    ensures
        r == valid_octet(seg@),
{
    let n = seg.len();
    if n < 1 || n > 3 {
        return false;
    }
    let mut val: u32 = 0;
    for i in 0..n
        invariant
            n == seg@.len(),
            n <= 3,
            forall|k: int| 0 <= k < i ==> is_digit(#[trigger] seg@[k]),
            val == digits_val(seg@.take(i as int)),
            val <= 999,
    {
        let c = seg[i];
        let cu = c as u32;
        if cu < 48 || cu > 57 {
            return false;
        }
        proof {
            assert(seg@.take(i + 1).drop_last() =~= seg@.take(i as int));
            assert(seg@.take(i + 1).last() == seg@[i as int]);
            assert(digits_val(seg@.take(i as int)) <= 99) by {
                lemma_digits_val_bound(seg@.take(i as int));
            }
        }
        val = val * 10 + (cu - 48);
    }
    proof {
        assert(seg@.take(n as int) =~= seg@);
    }
    if n > 1 && seg[0] == '0' {
        return false;
    }
    val <= 255
}

/// At most two digits stay under one hundred.
proof fn lemma_digits_val_bound(s: Seq<char>)
    requires
        s.len() <= 2,
        forall|i: int| 0 <= i < s.len() ==> is_digit(#[trigger] s[i]),
    ensures
        0 <= digits_val(s) <= 99,
{
    if s.len() > 0 {
        lemma_digits_val_bound_one(s.drop_last());
        assert(is_digit(s[s.len() - 1]));
    }
}

/// At most one digit stays under ten.
proof fn lemma_digits_val_bound_one(s: Seq<char>)
    requires
        s.len() <= 1,
        forall|i: int| 0 <= i < s.len() ==> is_digit(#[trigger] s[i]),
    ensures
        0 <= digits_val(s) <= 9,
{
    reveal_with_fuel(digits_val, 2);
}

/// Splits a character vector on dots, empties kept.
fn split_dots_exec(v: &Vec<char>) -> (r: Vec<Vec<char>>)
    ensures
        r.deep_view() == split_dots(v@),
{
    let n = v.len();
    let mut out: Vec<Vec<char>> = Vec::new();
    let mut i: usize = 0;
    let mut done: bool = false;
    proof {
        assert(v@.skip(0) =~= v@);
    }
    while !done
        invariant
            n == v.len(),
            i <= n,
            !done ==> out.deep_view() + split_dots(v@.skip(i as int)) =~~= split_dots(v@),
            done ==> out.deep_view() =~~= split_dots(v@),
        decreases n + 1 - i, (if done { 0int } else { 1int }),
    {
        let mut j = i;
        let mut seg: Vec<char> = Vec::new();
        while j < n && v[j] != '.'
            invariant
                n == v.len(),
                i <= j <= n,
                seg@ =~= v@.subrange(i as int, j as int),
                forall|k: int| i <= k < j ==> v@[k] != '.',
            decreases n - j,
        {
            seg.push(v[j]);
            j = j + 1;
            assert(seg@ =~= v@.subrange(i as int, j as int));
        }
        proof {
            let rest = v@.skip(i as int);
            lemma_not_dot_len_is(rest, j - i);
            assert(rest.take(j - i) =~= v@.subrange(i as int, j as int));
        }
        let ghost before = out.deep_view();
        if j == n {
            out.push(seg);
            proof {
                assert(out.deep_view() =~~= before.push(v@.skip(i as int)));
                assert(split_dots(v@.skip(i as int)) =~~= seq![v@.skip(i as int)]);
                assert(before.push(v@.skip(i as int)) =~~= before + seq![v@.skip(i as int)]);
            }
            done = true;
            i = n;
        } else {
            out.push(seg);
            proof {
                let rest = v@.skip(i as int);
                assert(rest.skip(j - i + 1) =~= v@.skip(j + 1));
                assert(out.deep_view() =~~= before.push(rest.take(j - i)));
                assert(before.push(rest.take(j - i)) + split_dots(v@.skip(j + 1)) =~~= before + (
                seq![rest.take(j - i)] + split_dots(v@.skip(j + 1))));
            }
            i = j + 1;
        }
    }
    out
}

/// Checks a dotted-quad IPv4 address.
pub fn check_ipv4(s: &str) -> (r: bool)
    ensures
        r == is_ipv4(s@),
{
    let chars = to_char_vec(s);
    let segs = split_dots_exec(&chars);
    if segs.len() != 4 {
        return false;
    }
    let mut k: usize = 0;
    while k < 4
        invariant
            segs@.len() == 4,
            segs.deep_view() == split_dots(s@),
            forall|k2: int| 0 <= k2 < k ==> valid_octet(#[trigger] segs.deep_view()[k2]),
        decreases 4 - k,
    {
        proof {
            assert(segs.deep_view()[k as int] == segs@[k as int]@);
        }
        if !check_octet(&segs[k]) {
            return false;
        }
        k = k + 1;
    }
    true
}

impl NetworkConfig {
    /// Validates the configuration: the ports must be non-zero and
    /// distinct, and the bind address a dotted-quad IPv4 address. The first
    /// failed check names the error.
    pub fn validate(&self) -> (r: Result<(), super::ConfigurationError>)
        ensures
            self.proxy_port == 0 <==> (r matches Err(e) && e matches
                super::ConfigurationError::NetworkConfigError(NetworkConfigError::ProxyPortError(
                _,
            ))),
            self.proxy_port != 0 && self.web_port == 0 <==> (r matches Err(e) && e matches
                super::ConfigurationError::NetworkConfigError(NetworkConfigError::WebPortError(_))),
            self.proxy_port != 0 && self.web_port != 0 && self.proxy_port == self.web_port <==> (
            r matches Err(e) && e matches super::ConfigurationError::NetworkConfigError(
                NetworkConfigError::PortCollisionError(_),
            )),
            self.proxy_port != 0 && self.web_port != 0 && self.proxy_port != self.web_port
                && !is_ipv4(self.bind_addr@) <==> (r matches Err(e) && e matches
                super::ConfigurationError::NetworkConfigError(NetworkConfigError::BindAddressError(
                _,
            ))),
            r is Ok <==> self.proxy_port != 0 && self.web_port != 0 && self.proxy_port
                != self.web_port && is_ipv4(self.bind_addr@),
    {
        if self.proxy_port == 0 {
            return Err(
                super::ConfigurationError::NetworkConfigError(
                    NetworkConfigError::ProxyPortError(
                        String::from_str("Proxy port cannot be 0"),
                    ),
                ),
            );
        }
        if self.web_port == 0 {
            return Err(
                super::ConfigurationError::NetworkConfigError(
                    NetworkConfigError::WebPortError(String::from_str("Web port cannot be 0")),
                ),
            );
        }
        if self.proxy_port == self.web_port {
            return Err(
                super::ConfigurationError::NetworkConfigError(
                    NetworkConfigError::PortCollisionError(
                        String::from_str("Proxy and web ports cannot be the same"),
                    ),
                ),
            );
        }
        if !check_ipv4(self.bind_addr.as_str()) {
            return Err(
                super::ConfigurationError::NetworkConfigError(
                    NetworkConfigError::BindAddressError(
                        String::from_str("Invalid bind address"),
                    ),
                ),
            );
        }
        Ok(())
    }

    /// A field-identical copy.
    pub fn duplicate(&self) -> (r: NetworkConfig)
        ensures
            r == *self,
    {
        NetworkConfig {
            bind_addr: self.bind_addr.clone(),
            proxy_port: self.proxy_port,
            web_port: self.web_port,
            tls: self.tls,
            tls_cert_path: clone_opt(&self.tls_cert_path),
            tls_key_path: clone_opt(&self.tls_key_path),
            listen_url: clone_opt(&self.listen_url),
        }
    }
}

/// A copy of an optional string.
pub(crate) fn clone_opt(o: &Option<String>) -> (r: Option<String>)
    ensures
        r == *o,
{
    match o {
        Some(s) => Some(s.clone()),
        None => None,
    }
}

} // verus!
