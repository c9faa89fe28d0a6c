use crate::options::CliOptions;
use vstd::prelude::*;
use vstd::string::StringExecFns;

verus! {

/// The name the server reports.
pub const NAME: &'static str = "web3_proxy";

/// The version the server reports.
pub const VERSION: &'static str = "0.1.0";

/// The character of a decimal digit.
pub open spec fn digit_char(digit: nat) -> char {
    if digit == 0 {
        '0'
    } else if digit == 1 {
        '1'
    } else if digit == 2 {
        '2'
    } else if digit == 3 {
        '3'
    } else if digit == 4 {
        '4'
    } else if digit == 5 {
        '5'
    } else if digit == 6 {
        '6'
    } else if digit == 7 {
        '7'
    } else if digit == 8 {
        '8'
    } else {
        '9'
    }
}

/// A number written in decimal digits, without sign or padding.
pub open spec fn decimal(n: nat) -> Seq<char>
    decreases n,
{
    if n < 10 {
        seq![digit_char(n)]
    } else {
        decimal(n / 10).push(digit_char(n % 10))
    }
}

/// The line that tells where the server listens.
pub open spec fn listen_spec(addr: Seq<char>, port: u16) -> Seq<char> {
    "Listen: "@ + addr + ":"@ + decimal(port as nat)
}

/// The text of one decimal digit.
fn digit_text(digit: u16) -> (r: &'static str)
    requires
        digit < 10,
    ensures
        r@ == seq![digit_char(digit as nat)],
{
    proof {
        reveal_strlit("0");
        reveal_strlit("1");
        reveal_strlit("2");
        reveal_strlit("3");
        reveal_strlit("4");
        reveal_strlit("5");
        reveal_strlit("6");
        reveal_strlit("7");
        reveal_strlit("8");
        reveal_strlit("9");
    }
    let r = if digit == 0 {
        "0"
    } else if digit == 1 {
        "1"
    } else if digit == 2 {
        "2"
    } else if digit == 3 {
        "3"
    } else if digit == 4 {
        "4"
    } else if digit == 5 {
        "5"
    } else if digit == 6 {
        "6"
    } else if digit == 7 {
        "7"
    } else if digit == 8 {
        "8"
    } else {
        "9"
    };
    r
}

/// Writes a number in decimal digits.
pub fn decimal_text(n: u16) -> (r: String)
    ensures
        r@ == decimal(n as nat),
    decreases n,
{
    if n < 10 {
        digit_text(n).to_owned()
    } else {
        let mut text = decimal_text(n / 10);
        text.append(digit_text(n % 10));
        text
    }
}

/// Writes the line that tells where the server listens.
pub fn listen_text(addr: &str, port: u16) -> (r: String)
    ensures
        r@ == listen_spec(addr@, port),
{
    let mut text = "Listen: ".to_owned();
    text.append(addr);
    text.append(":");
    text.append(decimal_text(port).as_str());
    text
}

/// Mathematical model of the server's greeting.
pub struct ServerInfoModel {
    pub name: Seq<char>,
    pub server_info: Seq<char>,
    pub version: Seq<char>,
}

/// The server's greeting: its name, where it listens, and its version.
#[derive(Debug, PartialEq, Eq)]
pub struct ServerInfo {
    pub name: String,
    pub server_info: String,
    pub version: String,
}

impl View for ServerInfo {
    type V = ServerInfoModel;

    open spec fn view(&self) -> ServerInfoModel {
        ServerInfoModel {
            name: self.name@,
            server_info: self.server_info@,
            version: self.version@,
        }
    }
}

/// The greeting of a server that runs with the given options.
pub fn greet(options: &CliOptions) -> (r: ServerInfo)
    ensures
        r@ == (ServerInfoModel {
            name: NAME@,
            server_info: listen_spec(options.http_addr@, options.http_port),
            version: VERSION@,
        }),
{
    ServerInfo {
        name: NAME.to_owned(),
        server_info: listen_text(options.http_addr.as_str(), options.http_port),
        version: VERSION.to_owned(),
    }
}

/// Mathematical model of the configuration the server reports.
pub struct ConfigInfoModel {
    pub version: Seq<char>,
    pub request_queue_size: usize,
}

/// The configuration the server reports: its version and the capacity of
/// each key's history.
#[derive(Debug, PartialEq, Eq)]
pub struct ConfigInfo {
    pub version: String,
    pub request_queue_size: usize,
}

impl View for ConfigInfo {
    type V = ConfigInfoModel;

    open spec fn view(&self) -> ConfigInfoModel {
        ConfigInfoModel { version: self.version@, request_queue_size: self.request_queue_size }
    }
}

/// The configuration report of a server that runs with the given options.
pub fn config(options: &CliOptions) -> (r: ConfigInfo)
    ensures
        r@ == (ConfigInfoModel {
            version: VERSION@,
            request_queue_size: options.request_queue_size,
        }),
{
    ConfigInfo { version: VERSION.to_owned(), request_queue_size: options.request_queue_size }
}

} // verus!
