//! Service identification: classifying an open port from its number and the
//! banner the service sent, and extracting version hints from well-known
//! banner shapes. Reading the banner itself is network work and is done by
//! the embedding application; everything here is a pure function of the
//! banner text.

use vstd::prelude::*;
use vstd::string::*;
use crate::discovery::{ServiceInfo, ServiceInfoView};
use crate::text::{
    contains_seq, contains_str, dec_string, dec_text, lines_list, lines_of, starts_with_spec,
    starts_with_str, trim_spec, trim_str, ws_token_list, ws_tokens,
};

verus! {

/// Classifies services from port numbers and banners.
#[derive(Debug)]
pub struct ServiceIdentifier;

/// The version token of an SSH banner: the second whitespace-delimited token
/// of a banner that starts with `SSH-`.
pub open spec fn ssh_version_of(b: Option<Seq<char>>) -> Option<Seq<char>> {
    match b {
        Some(t) => if starts_with_spec(t, "SSH-"@) && ws_tokens(t).len() >= 2 {
            Some(ws_tokens(t)[1])
        } else {
            None
        },
        None => None,
    }
}

/// The value of the first `Server: ` line, searched from line `i` on.
pub open spec fn server_header_from(lines: Seq<Seq<char>>, i: int) -> Option<Seq<char>>
    decreases lines.len() - i when 0 <= i <= lines.len()
{
    if i >= lines.len() {
        None
    } else if starts_with_spec(lines[i], "Server: "@) {
        Some(lines[i].skip(8))
    } else {
        server_header_from(lines, i + 1)
    }
}

/// The server string of an HTTP response banner: what follows `Server: ` on
/// the first header line that carries it.
pub open spec fn http_version_of(b: Option<Seq<char>>) -> Option<Seq<char>> {
    match b {
        Some(t) => server_header_from(lines_of(t), 0),
        None => None,
    }
}

/// The best-effort MySQL version: the trimmed banner, when the banner
/// mentions `mysql` at all.
pub open spec fn mysql_version_of(b: Option<Seq<char>>) -> Option<Seq<char>> {
    match b {
        Some(t) => if contains_seq(t, "mysql"@) {
            Some(trim_spec(t))
        } else {
            None
        },
        None => None,
    }
}

/// The best-effort Redis version: the trimmed banner, when the banner
/// mentions `redis` at all.
pub open spec fn redis_version_of(b: Option<Seq<char>>) -> Option<Seq<char>> {
    match b {
        Some(t) => if contains_seq(t, "redis"@) {
            Some(trim_spec(t))
        } else {
            None
        },
        None => None,
    }
}

/// The protocol name a port number maps to; ports outside the table are
/// reported as `unknown_<port>`.
pub open spec fn service_name_of(port: u16) -> Seq<char> {
    if port == 21 {
        "ftp"@
    } else if port == 22 {
        "ssh"@
    } else if port == 23 {
        "telnet"@
    } else if port == 25 {
        "smtp"@
    } else if port == 80 || port == 443 {
        "http"@
    } else if port == 3306 {
        "mysql"@
    } else if port == 5432 {
        "postgresql"@
    } else if port == 6379 {
        "redis"@
    } else if port == 27017 {
        "mongodb"@
    } else {
        "unknown_"@ + dec_text(port as nat)
    }
}

/// The version a banner yields for a port: only the protocols with a known
/// banner shape are examined.
pub open spec fn service_version_of(port: u16, b: Option<Seq<char>>) -> Option<Seq<char>> {
    if port == 22 {
        ssh_version_of(b)
    } else if port == 80 || port == 443 {
        http_version_of(b)
    } else if port == 3306 {
        mysql_version_of(b)
    } else if port == 6379 {
        redis_version_of(b)
    } else {
        None
    }
}

/// The full classification of one open port: name from the port table,
/// version from the banner, and the banner kept as observed. An absent
/// banner is not an error.
pub open spec fn classify_spec(port: u16, b: Option<Seq<char>>) -> ServiceInfoView {
    ServiceInfoView {
        name: service_name_of(port),
        version: service_version_of(port, b),
        banner: b,
    }
}

impl ServiceIdentifier {
    pub fn new() -> (r: Self)
        ensures
            r == (ServiceIdentifier {}),
    {
        Self {}
    }

    /// Extracts the SSH version token from a banner.
    pub fn parse_ssh_version(&self, banner: &Option<String>) -> (r: Option<String>)
        ensures
            r.deep_view() == ssh_version_of(banner.deep_view()),
    {
        match banner {
            None => None,
            Some(b) => {
                if starts_with_str(b.as_str(), "SSH-") {
                    let toks = ws_token_list(b.as_str());
                    if toks.len() >= 2 {
                        proof {
                            assert(toks.deep_view()[1] == toks@[1]@);
                        }
                        Some(toks[1].clone())
                    } else {
                        None
                    }
                } else {
                    None
                }
            },
        }
    }

    /// Extracts the `Server: ` header value from an HTTP banner.
    pub fn parse_http_version(&self, banner: &Option<String>) -> (r: Option<String>)
        ensures
            r.deep_view() == http_version_of(banner.deep_view()),
    {
        match banner {
            None => None,
            Some(b) => {
                let lines = lines_list(b.as_str());
                let ghost lv = lines_of(b@);
                let mut i: usize = 0;
                while i < lines.len()
                    invariant
                        http_version_of(banner.deep_view()) == server_header_from(lv, 0),
                        lines.deep_view() == lv,
                        lines@.len() == lv.len(),
                        i <= lv.len(),
                        server_header_from(lv, 0) == server_header_from(lv, i as int),
                    decreases lv.len() - i,
                {
                    proof {
                        assert(lv[i as int] == lines@[i as int]@);
                    }
                    let line = &lines[i];
                    if starts_with_str(line.as_str(), "Server: ") {
                        proof {
                            reveal_strlit("Server: ");
                        }
                        let n = line.as_str().unicode_len();
                        let v = line.as_str().substring_char(8, n).to_owned();
                        proof {
                            assert(v@ =~= lv[i as int].skip(8));
                        }
                        return Some(v);
                    }
                    i += 1;
                }
                None
            },
        }
    }

    /// Reports the trimmed banner as the MySQL version when it mentions
    /// `mysql`.
    pub fn parse_mysql_version(&self, banner: &Option<String>) -> (r: Option<String>)
        ensures
            r.deep_view() == mysql_version_of(banner.deep_view()),
    {
        match banner {
            None => None,
            Some(b) => {
                if contains_str(b.as_str(), "mysql") {
                    Some(trim_str(b.as_str()))
                } else {
                    None
                }
            },
        }
    }

    /// Reports the trimmed banner as the Redis version when it mentions
    /// `redis`.
    pub fn parse_redis_version(&self, banner: &Option<String>) -> (r: Option<String>)
        ensures
            r.deep_view() == redis_version_of(banner.deep_view()),
    {
        match banner {
            None => None,
            Some(b) => {
                if contains_str(b.as_str(), "redis") {
                    Some(trim_str(b.as_str()))
                } else {
                    None
                }
            },
        }
    }

    /// Classifies one open port from its number and the banner read from it.
    pub fn classify(&self, port: u16, banner: Option<String>) -> (r: ServiceInfo)
        ensures
            r@ == classify_spec(port, banner.deep_view()),
    {
        let name: String;
        if port == 21 {
            name = ("ftp").to_owned();
        } else if port == 22 {
            name = ("ssh").to_owned();
        } else if port == 23 {
            name = ("telnet").to_owned();
        } else if port == 25 {
            name = ("smtp").to_owned();
        } else if port == 80 || port == 443 {
            name = ("http").to_owned();
        } else if port == 3306 {
            name = ("mysql").to_owned();
        } else if port == 5432 {
            name = ("postgresql").to_owned();
        } else if port == 6379 {
            name = ("redis").to_owned();
        } else if port == 27017 {
            name = ("mongodb").to_owned();
        } else {
            let mut u = ("unknown_").to_owned();
            u.append(dec_string(port).as_str());
            name = u;
        }
        let version: Option<String>;
        if port == 22 {
            version = self.parse_ssh_version(&banner);
        } else if port == 80 || port == 443 {
            version = self.parse_http_version(&banner);
        } else if port == 3306 {
            version = self.parse_mysql_version(&banner);
        } else if port == 6379 {
            version = self.parse_redis_version(&banner);
        } else {
            version = None;
        }
        ServiceInfo { name, version, banner }
    }
}

} // verus!
