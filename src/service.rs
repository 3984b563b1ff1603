use vstd::prelude::*;

verus! {

/// The decimal digits of `n`, most significant first, without leading zeros.
pub open spec fn decimal_of(n: nat) -> Seq<char>
    decreases n,
{
    if n < 10 {
        seq![decimal_digits()[n as int]]
    } else {
        decimal_of(n / 10).push(decimal_digits()[(n % 10) as int])
    }
}

pub open spec fn decimal_digits() -> Seq<char> {
    seq!['0', '1', '2', '3', '4', '5', '6', '7', '8', '9']
}

/// The address the RTMP listener binds: every interface, at `port`.
pub open spec fn listen_address_of(port: u16) -> Seq<char> {
    "0.0.0.0:"@ + decimal_of(port as nat)
}

/// The RTMP server's settings.
#[derive(Debug, Clone, Copy, PartialEq, Eq, Structural)]
pub struct RtmpConfig {
    pub port: u16,
}

/// The server's settings, as far as the service reads them.
#[derive(Debug, Clone, Copy, PartialEq, Eq, Structural)]
pub struct Config {
    pub rtmp: Option<RtmpConfig>,
}

/// The server process: one RTMP listener feeding the hub.
pub struct Service {
    pub cfg: Config,
}

impl Service {
    pub fn new(cfg: Config) -> (r: Service)
        ensures
            r.cfg == cfg,
    {
        Service { cfg }
    }

    /// The address to listen on for RTMP, or none when RTMP is not configured.
    pub fn rtmp_listen_address(&self) -> (r: Option<String>)
        ensures
            self.cfg.rtmp is None ==> r is None,
            self.cfg.rtmp matches Some(c) ==> r matches Some(a) && a@ == listen_address_of(c.port),
    {
        match self.cfg.rtmp {
            None => None,
            Some(c) => {
                let mut a = String::from_str("0.0.0.0:");
                proof {
                    reveal_strlit("0.0.0.0:");
                }
                let d = decimal_string(c.port);
                a.append(d.as_str());
                Some(a)
            },
        }
    }
}

fn decimal_digit(d: u16) -> (r: &'static str)
    requires
        d < 10,
    ensures
        r@ == seq![decimal_digits()[d as int]],
{
    let digits = "0123456789";
    proof {
        reveal_strlit("0123456789");
    }
    let r = digits.substring_char(d as usize, d as usize + 1);
    assert(r@ =~= seq![decimal_digits()[d as int]]);
    r
}

fn decimal_string(n: u16) -> (r: String)
    ensures
        r@ == decimal_of(n as nat),
    decreases n,
{
    if n < 10 {
        String::from_str(decimal_digit(n))
    } else {
        let mut s = decimal_string(n / 10);
        s.append(decimal_digit(n % 10));
        s
    }
}

} // verus!
