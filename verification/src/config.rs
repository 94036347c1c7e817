use vstd::prelude::*;

verus! {

/// `c` is one of the ASCII digits `0`..`9`.
pub open spec fn is_digit(c: char) -> bool {
    '0' <= c && c <= '9'
}

/// Every character of `d` is an ASCII digit.
pub open spec fn all_digits(d: Seq<char>) -> bool {
    forall|i: int| 0 <= i < d.len() ==> #[trigger] is_digit(d[i])
}

/// The number that the decimal digits `d` write.
pub open spec fn digits_value(d: Seq<char>) -> int
    decreases d.len(),
{
    if d.len() == 0 {
        0
    } else {
        digits_value(d.drop_last()) * 10 + (d.last() as int - '0' as int)
    }
}

/// What `str::parse::<u16>` gives, as its documentation states it: an
/// optional `+` followed by one or more ASCII digits whose value fits a
/// `u16`; anything else is an error.
pub open spec fn spec_parse_u16(s: Seq<char>) -> Option<u16> {
    let d = if s.len() > 0 && s[0] == '+' {
        s.drop_first()
    } else {
        s
    };
    if d.len() > 0 && all_digits(d) && digits_value(d) <= u16::MAX {
        Some(digits_value(d) as u16)
    } else {
        None
    }
}

proof fn lemma_digits_value_nonneg(d: Seq<char>)
    requires
        all_digits(d),
    ensures
        digits_value(d) >= 0,
    decreases d.len(),
{
    if d.len() > 0 {
        let p = d.drop_last();
        assert(all_digits(p)) by {
            assert forall|i: int| 0 <= i < p.len() implies #[trigger] is_digit(p[i]) by {
                assert(is_digit(d[i]));
            }
        }
        lemma_digits_value_nonneg(p);
        assert(is_digit(d[d.len() - 1]));
    }
}

/// Parses a port number the way `str::parse::<u16>` does.
pub fn parse_u16(s: &str) -> (r: Option<u16>)
    ensures
        r == spec_parse_u16(s@),
{
    let n = s.unicode_len();
    let start: usize = if n > 0 && s.get_char(0) == '+' {
        1
    } else {
        0
    };
    let ghost d = if s@.len() > 0 && s@[0] == '+' {
        s@.drop_first()
    } else {
        s@
    };
    assert(d =~= s@.subrange(start as int, n as int));
    if start == n {
        return None;
    }
    let mut i: usize = start;
    let mut acc: u32 = 0;
    while i < n
        invariant
            n == s@.len(),
            start <= i <= n,
            d == s@.subrange(start as int, n as int),
            d == (if s@.len() > 0 && s@[0] == '+' {
                s@.drop_first()
            } else {
                s@
            }),
            all_digits(s@.subrange(start as int, i as int)),
            acc == (if digits_value(s@.subrange(start as int, i as int)) >= 65536 {
                65536
            } else {
                digits_value(s@.subrange(start as int, i as int))
            }),
        decreases n - i,
    {
        let ghost p = s@.subrange(start as int, i as int);
        let ghost q = s@.subrange(start as int, i + 1);
        let c = s.get_char(i);
        if c < '0' || c > '9' {
            assert(d[i - start] == c);
            assert(!is_digit(d[i - start]));
            return None;
        }
        assert(q.drop_last() =~= p);
        assert(q.last() == c);
        assert(all_digits(q)) by {
            assert forall|j: int| 0 <= j < q.len() implies #[trigger] is_digit(q[j]) by {
                if j < p.len() {
                    assert(q[j] == p[j]);
                    assert(is_digit(p[j]));
                }
            }
        }
        proof {
            lemma_digits_value_nonneg(p);
        }
        let digit = (c as u32) - ('0' as u32);
        if acc >= 65536 {
            acc = 65536;
        } else {
            let t = acc * 10 + digit;
            acc = if t > 65536 {
                65536
            } else {
                t
            };
        }
        i += 1;
    }
    assert(s@.subrange(start as int, n as int) == d);
    if acc > 65535 {
        None
    } else {
        Some(acc as u16)
    }
}

/// The ASCII digit for `d` (0..9).
pub open spec fn digit_char(d: int) -> char {
    ('0' as int + d) as char
}

/// The decimal digits of `n`, without leading zeros.
pub open spec fn decimal(n: nat) -> Seq<char>
    decreases n,
{
    if n < 10 {
        seq![digit_char(n as int)]
    } else {
        decimal(n / 10).push(digit_char((n % 10) as int))
    }
}

proof fn lemma_decimal(n: nat)
    ensures
        decimal(n).len() > 0,
        all_digits(decimal(n)),
        digits_value(decimal(n)) == n,
    decreases n,
{
    if n < 10 {
        let d = decimal(n);
        assert(d[0] == digit_char(n as int));
        assert(digit_char(n as int) as int == '0' as int + n);
        assert(is_digit(d[0]));
        assert(d.drop_last() =~= Seq::<char>::empty());
        assert(digits_value(d.drop_last()) == 0);
        assert(d.last() == d[0]);
        assert(digits_value(d) == n);
    } else {
        lemma_decimal(n / 10);
        let p = decimal(n / 10);
        let d = decimal(n);
        assert(d.drop_last() =~= p);
        assert(d.last() == digit_char((n % 10) as int));
        assert(digit_char((n % 10) as int) as int == '0' as int + n % 10);
        assert(digits_value(d) == digits_value(p) * 10 + n % 10);
        assert(n == (n / 10) * 10 + n % 10);
        assert(all_digits(d)) by {
            assert forall|j: int| 0 <= j < d.len() implies #[trigger] is_digit(d[j]) by {
                if j < p.len() {
                    assert(d[j] == p[j]);
                    assert(is_digit(p[j]));
                }
            }
        }
    }
}

/// Reading back the decimal text of a port number gives the number.
pub proof fn lemma_parse_u16_decimal(p: u16)
    ensures
        spec_parse_u16(decimal(p as nat)) == Some(p),
{
    lemma_decimal(p as nat);
    let d = decimal(p as nat);
    assert(is_digit(d[0]));
}

/// Compares two strings character by character.
fn str_eq(a: &str, b: &str) -> (r: bool)
    ensures
        r == (a@ == b@),
{
    let n = a.unicode_len();
    if n != b.unicode_len() {
        return false;
    }
    let mut i: usize = 0;
    while i < n
        invariant
            n == a@.len(),
            n == b@.len(),
            i <= n,
            forall|j: int| 0 <= j < i ==> a@[j] == b@[j],
        decreases n - i,
    {
        if a.get_char(i) != b.get_char(i) {
            return false;
        }
        i += 1;
    }
    assert(a@ =~= b@);
    true
}

/// The texts of the command-line arguments.
pub open spec fn arg_texts(args: Seq<String>) -> Seq<Seq<char>> {
    args.map_values(|a: String| a@)
}

/// The error text for an unknown server option; `prog` is the program name.
pub open spec fn usage_message(prog: Seq<char>) -> Seq<char> {
    "Usage: "@ + prog + " -l <ip> -p <port>"@
}

/// Server options from position `i` on, with the address `ip` and port
/// `port` read so far: `-l <ip>` and `-p <port>`, the last one of each
/// counting; the result needs a non-empty address and a non-zero port.
pub open spec fn server_args_from(args: Seq<Seq<char>>, i: int, ip: Seq<char>, port: u16) -> Result<
    (Seq<char>, u16),
    Seq<char>,
>
    decreases args.len() - i,
{
    if i >= args.len() {
        if ip.len() == 0 || port == 0 {
            Err("Not enough arguments provided"@)
        } else {
            Ok((ip, port))
        }
    } else if args[i] == "-l"@ {
        if i + 1 < args.len() {
            server_args_from(args, i + 2, args[i + 1], port)
        } else {
            Err("Missing IP address after -l"@)
        }
    } else if args[i] == "-p"@ {
        if i + 1 < args.len() {
            match spec_parse_u16(args[i + 1]) {
                Some(p) => server_args_from(args, i + 2, ip, p),
                None => Err("Invalid port number"@),
            }
        } else {
            Err("Missing port number after -p"@)
        }
    } else {
        Err(usage_message(args[0]))
    }
}

/// The server's configuration as read from `args` (whose first element is
/// the program name).
pub open spec fn spec_get_config(args: Seq<Seq<char>>) -> Result<(Seq<char>, u16), Seq<char>> {
    server_args_from(args, 1, Seq::empty(), 0)
}

proof fn lemma_flags_distinct()
    ensures
        "-l"@ != "-p"@,
        "-h"@ != "-s"@,
        "-h"@ != "-p"@,
        "-h"@ != "-c"@,
        "-h"@ != "-r"@,
        "-h"@ != "-k"@,
        "-s"@ != "-p"@,
        "-s"@ != "-c"@,
        "-s"@ != "-r"@,
        "-s"@ != "-k"@,
        "-p"@ != "-c"@,
        "-p"@ != "-r"@,
        "-p"@ != "-k"@,
        "-c"@ != "-r"@,
        "-c"@ != "-k"@,
        "-r"@ != "-k"@,
{
    reveal_strlit("-l");
    reveal_strlit("-h");
    reveal_strlit("-s");
    reveal_strlit("-p");
    reveal_strlit("-c");
    reveal_strlit("-r");
    reveal_strlit("-k");
    assert("-l"@[1] != "-p"@[1]);
    assert("-h"@[1] != "-s"@[1]);
    assert("-h"@[1] != "-p"@[1]);
    assert("-h"@[1] != "-c"@[1]);
    assert("-h"@[1] != "-r"@[1]);
    assert("-h"@[1] != "-k"@[1]);
    assert("-s"@[1] != "-p"@[1]);
    assert("-s"@[1] != "-c"@[1]);
    assert("-s"@[1] != "-r"@[1]);
    assert("-s"@[1] != "-k"@[1]);
    assert("-p"@[1] != "-c"@[1]);
    assert("-p"@[1] != "-r"@[1]);
    assert("-p"@[1] != "-k"@[1]);
    assert("-c"@[1] != "-r"@[1]);
    assert("-c"@[1] != "-k"@[1]);
    assert("-r"@[1] != "-k"@[1]);
}

proof fn lemma_server_args_valid(args: Seq<Seq<char>>, i: int, ip: Seq<char>, port: u16)
    ensures
        server_args_from(args, i, ip, port) matches Ok((a, p)) ==> a.len() > 0 && p != 0,
    decreases args.len() - i,
{
    if i < args.len() {
        if args[i] == "-l"@ {
            if i + 1 < args.len() {
                lemma_server_args_valid(args, i + 2, args[i + 1], port);
            }
        } else if args[i] == "-p"@ {
            if i + 1 < args.len() {
                if let Some(p) = spec_parse_u16(args[i + 1]) {
                    lemma_server_args_valid(args, i + 2, ip, p);
                }
            }
        }
    }
}

/// Whatever the command line, a server configuration that is accepted has a
/// non-empty address and a non-zero port.
pub proof fn lemma_get_config_accepts_only_complete(args: Seq<Seq<char>>)
    ensures
        spec_get_config(args) matches Ok((ip, port)) ==> ip.len() > 0 && port != 0,
{
    lemma_server_args_valid(args, 1, Seq::empty(), 0);
}

/// The command line `prog -l <ip> -p <port>`, with the port written in
/// decimal, gives back that address and port.
pub proof fn lemma_get_config_roundtrip(prog: Seq<char>, ip: Seq<char>, port: u16)
    requires
        ip.len() > 0,
        port != 0,
    ensures
        spec_get_config(seq![prog, "-l"@, ip, "-p"@, decimal(port as nat)]) == Ok::<
            (Seq<char>, u16),
            Seq<char>,
        >((ip, port)),
{
    lemma_flags_distinct();
    lemma_parse_u16_decimal(port);
    let args = seq![prog, "-l"@, ip, "-p"@, decimal(port as nat)];
    assert(args[1] == "-l"@);
    assert(args[3] == "-p"@);
    assert(server_args_from(args, 5, ip, port) == Ok::<(Seq<char>, u16), Seq<char>>((ip, port)));
    assert(server_args_from(args, 3, ip, 0) == server_args_from(args, 5, ip, port));
    assert(server_args_from(args, 1, Seq::empty(), 0) == server_args_from(args, 3, ip, 0));
}

proof fn lemma_server_args_extend(
    args: Seq<Seq<char>>,
    tail: Seq<Seq<char>>,
    i: int,
    ip: Seq<char>,
    port: u16,
)
    requires
        1 <= i <= args.len(),
        server_args_from(args, i, ip, port) is Ok,
    ensures
        server_args_from(args + tail, i, ip, port) == server_args_from(
            args + tail,
            args.len() as int,
            server_args_from(args, i, ip, port)->Ok_0.0,
            server_args_from(args, i, ip, port)->Ok_0.1,
        ),
    decreases args.len() - i,
{
    let xa = args + tail;
    if i < args.len() {
        assert(xa[i] == args[i]);
        if i + 1 < args.len() {
            assert(xa[i + 1] == args[i + 1]);
        }
        if args[i] == "-l"@ {
            lemma_server_args_extend(args, tail, i + 2, args[i + 1], port);
        } else if args[i] == "-p"@ {
            lemma_server_args_extend(args, tail, i + 2, ip, spec_parse_u16(args[i + 1])->Some_0);
        }
    }
}

/// Adding one more option to an accepted server command line changes only
/// what that option sets: `-l <ip>` replaces the address and keeps the port,
/// `-p <port>` replaces the port and keeps the address; the result must
/// still have a non-empty address and a non-zero port.
pub proof fn lemma_get_config_append_option(args: Seq<Seq<char>>, value: Seq<char>)
    requires
        args.len() >= 1,
        spec_get_config(args) is Ok,
    ensures
        ({
            let (ip, port) = spec_get_config(args)->Ok_0;
            &&& spec_get_config(args + seq!["-l"@, value]) == (if value.len() > 0 {
                Ok::<(Seq<char>, u16), Seq<char>>((value, port))
            } else {
                Err::<(Seq<char>, u16), Seq<char>>("Not enough arguments provided"@)
            })
            &&& spec_get_config(args + seq!["-p"@, value]) == match spec_parse_u16(value) {
                Some(q) => if q != 0 {
                    Ok::<(Seq<char>, u16), Seq<char>>((ip, q))
                } else {
                    Err::<(Seq<char>, u16), Seq<char>>("Not enough arguments provided"@)
                },
                None => Err::<(Seq<char>, u16), Seq<char>>("Invalid port number"@),
            }
        }),
{
    lemma_flags_distinct();
    let (ip, port) = spec_get_config(args)->Ok_0;
    let n = args.len() as int;
    let e: Seq<char> = Seq::empty();
    let la = args + seq!["-l"@, value];
    let pa = args + seq!["-p"@, value];
    lemma_get_config_accepts_only_complete(args);
    lemma_server_args_extend(args, seq!["-l"@, value], 1, e, 0);
    lemma_server_args_extend(args, seq!["-p"@, value], 1, e, 0);
    assert(la.len() == n + 2);
    assert(pa.len() == n + 2);
    assert(la[n] == "-l"@);
    assert(la[n + 1] == value);
    assert(pa[n] == "-p"@);
    assert(pa[n + 1] == value);
    assert(server_args_from(la, n, ip, port) == server_args_from(la, n + 2, value, port));
    if let Some(q) = spec_parse_u16(value) {
        assert(server_args_from(pa, n, ip, port) == server_args_from(pa, n + 2, ip, q));
    }
}

/// The order of `-l` and `-p` does not matter: `prog -p <port> -l <ip>` reads
/// the same as `prog -l <ip> -p <port>`, accepted or refused alike.
pub proof fn lemma_get_config_option_order(prog: Seq<char>, ip: Seq<char>, port_text: Seq<char>)
    ensures
        spec_get_config(seq![prog, "-p"@, port_text, "-l"@, ip]) == spec_get_config(
            seq![prog, "-l"@, ip, "-p"@, port_text],
        ),
{
    lemma_flags_distinct();
    let a = seq![prog, "-p"@, port_text, "-l"@, ip];
    let b = seq![prog, "-l"@, ip, "-p"@, port_text];
    let e: Seq<char> = Seq::empty();
    assert(a[1] == "-p"@ && a[2] == port_text && a[3] == "-l"@ && a[4] == ip);
    assert(b[1] == "-l"@ && b[2] == ip && b[3] == "-p"@ && b[4] == port_text);
    assert(server_args_from(b, 1, e, 0) == server_args_from(b, 3, ip, 0));
    match spec_parse_u16(port_text) {
        Some(q) => {
            assert(server_args_from(a, 1, e, 0) == server_args_from(a, 3, e, q));
            assert(server_args_from(a, 3, e, q) == server_args_from(a, 5, ip, q));
            assert(server_args_from(b, 3, ip, 0) == server_args_from(b, 5, ip, q));
        },
        None => {
            assert(server_args_from(a, 1, e, 0) == Err::<(Seq<char>, u16), Seq<char>>(
                "Invalid port number"@,
            ));
        },
    }
}

/// Reads the server's listening address and port from the command line
/// (`-l <ip> -p <port>`; the first argument is the program name).
pub fn get_config(args: &Vec<String>) -> (r: Result<(String, u16), String>)
    ensures
        match r {
            Ok((ip, port)) => spec_get_config(arg_texts(args@)) == Ok::<(Seq<char>, u16), Seq<char>>(
                (ip@, port),
            ),
            Err(e) => spec_get_config(arg_texts(args@)) == Err::<(Seq<char>, u16), Seq<char>>(e@),
        },
        r matches Ok((ip, port)) ==> ip@.len() > 0 && port != 0,
{
    let ghost v = arg_texts(args@);
    proof {
        lemma_get_config_accepts_only_complete(v);
    }
    let mut i: usize = 1;
    let mut ip = String::new();
    let mut port: u16 = 0;
    loop
        invariant
            v == arg_texts(args@),
            1 <= i,
            spec_get_config(v) == server_args_from(v, i as int, ip@, port),
        decreases args.len() - i,
    {
        if i >= args.len() {
            if ip.as_str().is_empty() || port == 0 {
                return Err("Not enough arguments provided".to_owned());
            } else {
                return Ok((ip, port));
            }
        }
        let a = args[i].as_str();
        assert(a@ == v[i as int]);
        if str_eq(a, "-l") {
            if i + 1 < args.len() {
                ip = args[i + 1].clone();
                i = i + 2;
            } else {
                return Err("Missing IP address after -l".to_owned());
            }
        } else if str_eq(a, "-p") {
            if i + 1 < args.len() {
                match parse_u16(args[i + 1].as_str()) {
                    Some(p) => {
                        port = p;
                        i = i + 2;
                    },
                    None => {
                        return Err("Invalid port number".to_owned());
                    },
                }
            } else {
                return Err("Missing port number after -p".to_owned());
            }
        } else {
            let mut msg = "Usage: ".to_owned();
            msg.append(args[0].as_str());
            msg.append(" -l <ip> -p <port>");
            return Err(msg);
        }
    }
}

/// Why the client's command line was refused. `at` is the position of the
/// argument that could not be read as a number.
#[derive(Debug, Clone, Copy, PartialEq, Eq, Structural)]
pub enum ConfigError {
    /// `-h` was given.
    Help,
    MissingServerIp,
    MissingServerPort,
    BadServerPort { at: usize },
    MissingClientIp,
    MissingClientPort,
    BadClientPort { at: usize },
    MissingKbps,
    BadKbps { at: usize },
    /// An argument that is no known option.
    UnknownFlag,
}

impl ConfigError {
    /// The error text of each refusal.
    pub open spec fn spec_message(self) -> Seq<char> {
        match self {
            ConfigError::Help => "please input -s -p -c -r -k"@,
            ConfigError::MissingServerIp => "please input server ip"@,
            ConfigError::MissingServerPort => "please input server port"@,
            ConfigError::BadServerPort { .. } => "server port is error"@,
            ConfigError::MissingClientIp => "please input client ip"@,
            ConfigError::MissingClientPort => "please input client port"@,
            ConfigError::BadClientPort { .. } => "client port is error"@,
            ConfigError::MissingKbps => "please input kbps"@,
            ConfigError::BadKbps { .. } => "kbps is error"@,
            ConfigError::UnknownFlag => "please input -s -p -c -r -k"@,
        }
    }

    /// The error text of this refusal.
    pub fn message(&self) -> (r: &'static str)
        ensures
            r@ == self.spec_message(),
    {
        match self {
            ConfigError::Help => "please input -s -p -c -r -k",
            ConfigError::MissingServerIp => "please input server ip",
            ConfigError::MissingServerPort => "please input server port",
            ConfigError::BadServerPort { .. } => "server port is error",
            ConfigError::MissingClientIp => "please input client ip",
            ConfigError::MissingClientPort => "please input client port",
            ConfigError::BadClientPort { .. } => "client port is error",
            ConfigError::MissingKbps => "please input kbps",
            ConfigError::BadKbps { .. } => "kbps is error",
            ConfigError::UnknownFlag => "please input -s -p -c -r -k",
        }
    }
}

/// The client's settings: server address and port, the client's own
/// address and port, and the text of the sending rate in kbps (`None`: the
/// default rate of 64 kbps).
pub struct ClientConfig {
    pub server_ip: String,
    pub server_port: u16,
    pub client_ip: String,
    pub client_port: u16,
    pub kbps: Option<String>,
}

/// The client's settings as plain values, in field order.
pub type ClientArgs = (Seq<char>, u16, Seq<char>, u16, Option<Seq<char>>);

impl ClientConfig {
    pub open spec fn parts(&self) -> ClientArgs {
        (
            self.server_ip@,
            self.server_port,
            self.client_ip@,
            self.client_port,
            match self.kbps {
                Some(k) => Some(k@),
                None => None,
            },
        )
    }
}

/// Client options from position `i` on, with the settings `acc` read so
/// far. `-s`, `-p`, `-c`, `-r`, `-k` each take the next argument (the last
/// one of each counting); `-h` or an unknown argument stops with an error.
/// `kbps_ok[j]` says whether argument `j` reads as a rate.
pub open spec fn client_args_from(
    args: Seq<Seq<char>>,
    kbps_ok: Seq<bool>,
    i: int,
    acc: ClientArgs,
) -> Result<ClientArgs, ConfigError>
    decreases args.len() - i,
{
    if i >= args.len() {
        Ok(acc)
    } else if args[i] == "-h"@ {
        Err(ConfigError::Help)
    } else if args[i] == "-s"@ {
        if i + 1 < args.len() {
            client_args_from(args, kbps_ok, i + 2, (args[i + 1], acc.1, acc.2, acc.3, acc.4))
        } else {
            Err(ConfigError::MissingServerIp)
        }
    } else if args[i] == "-p"@ {
        if i + 1 < args.len() {
            match spec_parse_u16(args[i + 1]) {
                Some(p) => client_args_from(args, kbps_ok, i + 2, (acc.0, p, acc.2, acc.3, acc.4)),
                None => Err(ConfigError::BadServerPort { at: (i + 1) as usize }),
            }
        } else {
            Err(ConfigError::MissingServerPort)
        }
    } else if args[i] == "-c"@ {
        if i + 1 < args.len() {
            client_args_from(args, kbps_ok, i + 2, (acc.0, acc.1, args[i + 1], acc.3, acc.4))
        } else {
            Err(ConfigError::MissingClientIp)
        }
    } else if args[i] == "-r"@ {
        if i + 1 < args.len() {
            match spec_parse_u16(args[i + 1]) {
                Some(p) => client_args_from(args, kbps_ok, i + 2, (acc.0, acc.1, acc.2, p, acc.4)),
                None => Err(ConfigError::BadClientPort { at: (i + 1) as usize }),
            }
        } else {
            Err(ConfigError::MissingClientPort)
        }
    } else if args[i] == "-k"@ {
        if i + 1 < args.len() {
            if kbps_ok[i + 1] {
                client_args_from(
                    args,
                    kbps_ok,
                    i + 2,
                    (acc.0, acc.1, acc.2, acc.3, Some(args[i + 1])),
                )
            } else {
                Err(ConfigError::BadKbps { at: (i + 1) as usize })
            }
        } else {
            Err(ConfigError::MissingKbps)
        }
    } else {
        Err(ConfigError::UnknownFlag)
    }
}

/// The client's settings as read from `args` (whose first element is the
/// program name); unset addresses are empty, unset ports 0.
pub open spec fn spec_client_config(args: Seq<Seq<char>>, kbps_ok: Seq<bool>) -> Result<
    ClientArgs,
    ConfigError,
> {
    client_args_from(args, kbps_ok, 1, (Seq::empty(), 0, Seq::empty(), 0, None))
}

/// The command line
/// `prog -s <server ip> -p <server port> -c <client ip> -r <client port> -k <kbps>`,
/// ports written in decimal and the rate text accepted, gives back those
/// settings.
pub proof fn lemma_client_config_roundtrip(
    prog: Seq<char>,
    server_ip: Seq<char>,
    server_port: u16,
    client_ip: Seq<char>,
    client_port: u16,
    kbps: Seq<char>,
    kbps_ok: Seq<bool>,
)
    requires
        kbps_ok.len() == 11,
        kbps_ok[10],
    ensures
        spec_client_config(
            seq![
                prog,
                "-s"@,
                server_ip,
                "-p"@,
                decimal(server_port as nat),
                "-c"@,
                client_ip,
                "-r"@,
                decimal(client_port as nat),
                "-k"@,
                kbps,
            ],
            kbps_ok,
        ) == Ok::<ClientArgs, ConfigError>(
            (server_ip, server_port, client_ip, client_port, Some(kbps)),
        ),
{
    lemma_flags_distinct();
    lemma_parse_u16_decimal(server_port);
    lemma_parse_u16_decimal(client_port);
    let args = seq![
        prog,
        "-s"@,
        server_ip,
        "-p"@,
        decimal(server_port as nat),
        "-c"@,
        client_ip,
        "-r"@,
        decimal(client_port as nat),
        "-k"@,
        kbps,
    ];
    let e: Seq<char> = Seq::empty();
    let a5: ClientArgs = (server_ip, server_port, client_ip, client_port, Some(kbps));
    let a4: ClientArgs = (server_ip, server_port, client_ip, client_port, None);
    let a3: ClientArgs = (server_ip, server_port, client_ip, 0, None);
    let a2: ClientArgs = (server_ip, server_port, e, 0, None);
    let a1: ClientArgs = (server_ip, 0, e, 0, None);
    let a0: ClientArgs = (e, 0, e, 0, None);
    assert(args[1] == "-s"@);
    assert(args[3] == "-p"@);
    assert(args[5] == "-c"@);
    assert(args[7] == "-r"@);
    assert(args[9] == "-k"@);
    assert(client_args_from(args, kbps_ok, 11, a5) == Ok::<ClientArgs, ConfigError>(a5));
    assert(client_args_from(args, kbps_ok, 9, a4) == client_args_from(args, kbps_ok, 11, a5));
    assert(client_args_from(args, kbps_ok, 7, a3) == client_args_from(args, kbps_ok, 9, a4));
    assert(client_args_from(args, kbps_ok, 5, a2) == client_args_from(args, kbps_ok, 7, a3));
    assert(client_args_from(args, kbps_ok, 3, a1) == client_args_from(args, kbps_ok, 5, a2));
    assert(client_args_from(args, kbps_ok, 1, a0) == client_args_from(args, kbps_ok, 3, a1));
}

proof fn lemma_client_args_extend(
    args: Seq<Seq<char>>,
    kbps_ok: Seq<bool>,
    tail: Seq<Seq<char>>,
    tail_ok: Seq<bool>,
    i: int,
    acc: ClientArgs,
)
    requires
        kbps_ok.len() == args.len(),
        1 <= i <= args.len(),
        client_args_from(args, kbps_ok, i, acc) is Ok,
    ensures
        client_args_from(args + tail, kbps_ok + tail_ok, i, acc) == client_args_from(
            args + tail,
            kbps_ok + tail_ok,
            args.len() as int,
            client_args_from(args, kbps_ok, i, acc)->Ok_0,
        ),
    decreases args.len() - i,
{
    let xa = args + tail;
    let xo = kbps_ok + tail_ok;
    if i < args.len() {
        assert(xa[i] == args[i]);
        if i + 1 < args.len() {
            assert(xa[i + 1] == args[i + 1]);
            assert(xo[i + 1] == kbps_ok[i + 1]);
        }
        if args[i] == "-h"@ {
        } else if args[i] == "-s"@ {
            lemma_client_args_extend(
                args,
                kbps_ok,
                tail,
                tail_ok,
                i + 2,
                (args[i + 1], acc.1, acc.2, acc.3, acc.4),
            );
        } else if args[i] == "-p"@ {
            let p = spec_parse_u16(args[i + 1])->Some_0;
            lemma_client_args_extend(
                args,
                kbps_ok,
                tail,
                tail_ok,
                i + 2,
                (acc.0, p, acc.2, acc.3, acc.4),
            );
        } else if args[i] == "-c"@ {
            lemma_client_args_extend(
                args,
                kbps_ok,
                tail,
                tail_ok,
                i + 2,
                (acc.0, acc.1, args[i + 1], acc.3, acc.4),
            );
        } else if args[i] == "-r"@ {
            let p = spec_parse_u16(args[i + 1])->Some_0;
            lemma_client_args_extend(
                args,
                kbps_ok,
                tail,
                tail_ok,
                i + 2,
                (acc.0, acc.1, acc.2, p, acc.4),
            );
        } else if args[i] == "-k"@ {
            lemma_client_args_extend(
                args,
                kbps_ok,
                tail,
                tail_ok,
                i + 2,
                (acc.0, acc.1, acc.2, acc.3, Some(args[i + 1])),
            );
        }
    }
}

/// With no options, the client's settings are the defaults: empty
/// addresses, ports 0 and the default rate.
pub proof fn lemma_client_config_no_options(prog: Seq<char>, kbps_ok: Seq<bool>)
    ensures
        spec_client_config(seq![prog], kbps_ok) == Ok::<ClientArgs, ConfigError>(
            (Seq::empty(), 0, Seq::empty(), 0, None),
        ),
{
}

/// Adding one more option to an accepted client command line changes only
/// the setting that this option names: `-s` the server address, `-c` the
/// client address, `-p` the server port, `-r` the client port, `-k` the
/// rate; every other setting keeps its value. So each setting is the value
/// given with the last occurrence of its option, whatever the order of the
/// options.
pub proof fn lemma_client_config_append_option(
    args: Seq<Seq<char>>,
    kbps_ok: Seq<bool>,
    flag: Seq<char>,
    value: Seq<char>,
    more_ok: Seq<bool>,
)
    requires
        args.len() >= 1,
        kbps_ok.len() == args.len(),
        more_ok.len() == 2,
        spec_client_config(args, kbps_ok) is Ok,
    ensures
        ({
            let c = spec_client_config(args, kbps_ok)->Ok_0;
            let r = spec_client_config(args + seq![flag, value], kbps_ok + more_ok);
            let at = (args.len() + 1) as usize;
            &&& flag == "-s"@ ==> r == Ok::<ClientArgs, ConfigError>((value, c.1, c.2, c.3, c.4))
            &&& flag == "-c"@ ==> r == Ok::<ClientArgs, ConfigError>((c.0, c.1, value, c.3, c.4))
            &&& flag == "-p"@ ==> r == match spec_parse_u16(value) {
                Some(q) => Ok::<ClientArgs, ConfigError>((c.0, q, c.2, c.3, c.4)),
                None => Err::<ClientArgs, ConfigError>(ConfigError::BadServerPort { at }),
            }
            &&& flag == "-r"@ ==> r == match spec_parse_u16(value) {
                Some(q) => Ok::<ClientArgs, ConfigError>((c.0, c.1, c.2, q, c.4)),
                None => Err::<ClientArgs, ConfigError>(ConfigError::BadClientPort { at }),
            }
            &&& flag == "-k"@ ==> r == (if more_ok[1] {
                Ok::<ClientArgs, ConfigError>((c.0, c.1, c.2, c.3, Some(value)))
            } else {
                Err::<ClientArgs, ConfigError>(ConfigError::BadKbps { at })
            })
            &&& flag == "-h"@ ==> r == Err::<ClientArgs, ConfigError>(ConfigError::Help)
        }),
{
    let tail = seq![flag, value];
    let e: Seq<char> = Seq::empty();
    lemma_client_args_extend(args, kbps_ok, tail, more_ok, 1, (e, 0, e, 0, None));
    lemma_flags_distinct();
    let xa = args + tail;
    let xo = kbps_ok + more_ok;
    let n = args.len() as int;
    assert(xa.len() == n + 2);
    assert(xa[n] == flag);
    assert(xa[n + 1] == value);
    assert(xo[n + 1] == more_ok[1]);
    let c = spec_client_config(args, kbps_ok)->Ok_0;
    assert(client_args_from(xa, xo, n + 2, (value, c.1, c.2, c.3, c.4)) is Ok);
    assert(client_args_from(xa, xo, n + 2, (c.0, c.1, value, c.3, c.4)) is Ok);
    assert(client_args_from(xa, xo, n + 2, (c.0, c.1, c.2, c.3, Some(value))) is Ok);
    if let Some(q) = spec_parse_u16(value) {
        assert(client_args_from(xa, xo, n + 2, (c.0, q, c.2, c.3, c.4)) is Ok);
        assert(client_args_from(xa, xo, n + 2, (c.0, c.1, c.2, q, c.4)) is Ok);
    }
}

/// A later `-p` overrides an earlier one: appending `-p <port>` to an
/// accepted client command line (with at least the program name) gives the
/// same settings with that server port, whatever `kbps_ok` says of the two
/// added arguments.
pub proof fn lemma_client_config_later_port_wins(
    args: Seq<Seq<char>>,
    kbps_ok: Seq<bool>,
    port_text: Seq<char>,
    more_ok: Seq<bool>,
)
    requires
        args.len() >= 1,
        kbps_ok.len() == args.len(),
        more_ok.len() == 2,
        spec_client_config(args, kbps_ok) is Ok,
        spec_parse_u16(port_text) is Some,
    ensures
        ({
            let c = spec_client_config(args, kbps_ok)->Ok_0;
            spec_client_config(args + seq!["-p"@, port_text], kbps_ok + more_ok) == Ok::<
                ClientArgs,
                ConfigError,
            >((c.0, spec_parse_u16(port_text)->Some_0, c.2, c.3, c.4))
        }),
{
    let tail = seq!["-p"@, port_text];
    let e: Seq<char> = Seq::empty();
    lemma_client_args_extend(args, kbps_ok, tail, more_ok, 1, (e, 0, e, 0, None));
    lemma_flags_distinct();
    let xa = args + tail;
    let n = args.len() as int;
    assert(xa[n] == "-p"@);
    assert(xa[n + 1] == port_text);
    let xo = kbps_ok + more_ok;
    let c = spec_client_config(args, kbps_ok)->Ok_0;
    let p = spec_parse_u16(port_text)->Some_0;
    let done: ClientArgs = (c.0, p, c.2, c.3, c.4);
    assert(client_args_from(xa, xo, n + 2, done) == Ok::<ClientArgs, ConfigError>(done));
    assert(client_args_from(xa, xo, n, c) == client_args_from(xa, xo, n + 2, done));
}

impl ClientConfig {
    /// Reads the client's settings from the command line
    /// (`-s <server ip> -p <server port> -c <client ip> -r <client port>
    /// -k <kbps>`, `-h` for help; the first argument is the program name).
    /// Whether the text after `-k` reads as a rate is decided outside:
    /// `kbps_ok[j]` tells it for argument `j`.
    pub fn new(args: &[String], kbps_ok: &[bool]) -> (r: Result<Self, ConfigError>)
        requires
            kbps_ok@.len() == args@.len(),
        ensures
            match r {
                Ok(c) => spec_client_config(arg_texts(args@), kbps_ok@) == Ok::<
                    ClientArgs,
                    ConfigError,
                >(c.parts()),
                Err(e) => spec_client_config(arg_texts(args@), kbps_ok@) == Err::<
                    ClientArgs,
                    ConfigError,
                >(e),
            },
    {
        let ghost v = arg_texts(args@);
        let mut server_ip = String::new();
        let mut server_port: u16 = 0;
        let mut client_ip = String::new();
        let mut client_port: u16 = 0;
        let mut kbps: Option<String> = None;
        let mut i: usize = 1;
        loop
            invariant
                v == arg_texts(args@),
                kbps_ok@.len() == args@.len(),
                1 <= i,
                spec_client_config(v, kbps_ok@) == client_args_from(
                    v,
                    kbps_ok@,
                    i as int,
                    (ClientConfig { server_ip, server_port, client_ip, client_port, kbps }).parts(),
                ),
            decreases args.len() - i,
        {
            if i >= args.len() {
                return Ok(ClientConfig { server_ip, server_port, client_ip, client_port, kbps });
            }
            let a = args[i].as_str();
            assert(a@ == v[i as int]);
            let has_next = i + 1 < args.len();
            if str_eq(a, "-h") {
                return Err(ConfigError::Help);
            } else if str_eq(a, "-s") {
                if !has_next {
                    return Err(ConfigError::MissingServerIp);
                }
                server_ip = args[i + 1].clone();
            } else if str_eq(a, "-p") {
                if !has_next {
                    return Err(ConfigError::MissingServerPort);
                }
                match parse_u16(args[i + 1].as_str()) {
                    Some(p) => {
                        server_port = p;
                    },
                    None => {
                        return Err(ConfigError::BadServerPort { at: i + 1 });
                    },
                }
            } else if str_eq(a, "-c") {
                if !has_next {
                    return Err(ConfigError::MissingClientIp);
                }
                client_ip = args[i + 1].clone();
            } else if str_eq(a, "-r") {
                if !has_next {
                    return Err(ConfigError::MissingClientPort);
                }
                match parse_u16(args[i + 1].as_str()) {
                    Some(p) => {
                        client_port = p;
                    },
                    None => {
                        return Err(ConfigError::BadClientPort { at: i + 1 });
                    },
                }
            } else if str_eq(a, "-k") {
                if !has_next {
                    return Err(ConfigError::MissingKbps);
                }
                if !kbps_ok[i + 1] {
                    return Err(ConfigError::BadKbps { at: i + 1 });
                }
                kbps = Some(args[i + 1].clone());
            } else {
                return Err(ConfigError::UnknownFlag);
            }
            i = i + 2;
        }
    }
}

} // verus!
