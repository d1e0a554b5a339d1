//! Static configuration of the synchronizer.
//!
//! Devices are configured, not discovered; the application reads and
//! writes the persisted form and hands the core these plain records.

use vstd::prelude::*;

verus! {

use vstd::string::StringExecFns;

/// The listener's bind address.
pub struct ServerConfig {
    pub port: u16,
    pub host: String,
}

/// One configured peer: a display name and a reachable address.
pub struct Device {
    pub name: String,
    pub address: String,
}

/// Replication settings: the peers and the policy selector.
pub struct SyncConfig {
    pub devices: Vec<Device>,
    pub conflict_resolution: String,
    pub sync_interval: u64,
}

/// Where the synchronized tree lives.
pub struct PathConfig {
    pub minecraft_worlds: String,
}

/// The whole configuration record.
pub struct Config {
    pub server: ServerConfig,
    pub sync: SyncConfig,
    pub paths: PathConfig,
}

/// The character for one decimal digit.
pub open spec fn digit_char(d: int) -> char {
    if d == 0 {
        '0'
    } else if d == 1 {
        '1'
    } else if d == 2 {
        '2'
    } else if d == 3 {
        '3'
    } else if d == 4 {
        '4'
    } else if d == 5 {
        '5'
    } else if d == 6 {
        '6'
    } else if d == 7 {
        '7'
    } else if d == 8 {
        '8'
    } else {
        '9'
    }
}

/// The decimal rendering of a nonnegative number, no leading zeros.
pub open spec fn dec_str(n: int) -> Seq<char>
    recommends
        n >= 0,
    decreases n,
{
    if n < 10 {
        seq![digit_char(n)]
    } else {
        dec_str(n / 10).push(digit_char(n % 10))
    }
}

/// The literal for one decimal digit.
fn digit_str(d: u16) -> (r: &'static str)
    requires
        d < 10,
    ensures
        r@ == seq![digit_char(d as int)],
{
    if d == 0 {
        proof {
            reveal_strlit("0");
            assert("0"@ =~= seq![digit_char(0)]);
        }
        "0"
    } else if d == 1 {
        proof {
            reveal_strlit("1");
            assert("1"@ =~= seq![digit_char(1)]);
        }
        "1"
    } else if d == 2 {
        proof {
            reveal_strlit("2");
            assert("2"@ =~= seq![digit_char(2)]);
        }
        "2"
    } else if d == 3 {
        proof {
            reveal_strlit("3");
            assert("3"@ =~= seq![digit_char(3)]);
        }
        "3"
    } else if d == 4 {
        proof {
            reveal_strlit("4");
            assert("4"@ =~= seq![digit_char(4)]);
        }
        "4"
    } else if d == 5 {
        proof {
            reveal_strlit("5");
            assert("5"@ =~= seq![digit_char(5)]);
        }
        "5"
    } else if d == 6 {
        proof {
            reveal_strlit("6");
            assert("6"@ =~= seq![digit_char(6)]);
        }
        "6"
    } else if d == 7 {
        proof {
            reveal_strlit("7");
            assert("7"@ =~= seq![digit_char(7)]);
        }
        "7"
    } else if d == 8 {
        proof {
            reveal_strlit("8");
            assert("8"@ =~= seq![digit_char(8)]);
        }
        "8"
    } else {
        proof {
            reveal_strlit("9");
            assert("9"@ =~= seq![digit_char(9)]);
        }
        "9"
    }
}

/// Appends the decimal digits of `n`.
fn push_decimal(out: &mut String, n: u16)
    ensures
        final(out)@ == old(out)@ + dec_str(n as int),
    decreases n,
{
    if n >= 10 {
        push_decimal(out, n / 10);
        out.append(digit_str(n % 10));
        proof {
            assert(old(out)@ + dec_str(n as int) =~= old(out)@ + dec_str(n as int / 10) + seq![
                digit_char(n as int % 10),
            ]);
        }
    } else {
        out.append(digit_str(n));
    }
}

impl Config {
    /// The listener address the transport binds or dials, rendered as
    /// `host:port`.
    pub fn get_server_addr(&self) -> (r: String)
        ensures
            r@ == self.server.host@ + ":"@ + dec_str(self.server.port as int),
    {
        let mut addr = self.server.host.clone();
        addr.append(":");
        push_decimal(&mut addr, self.server.port);
        addr
    }
}

/// The candidate directories that may hold the user's worlds, for the
/// given account name.
pub fn get_minecraft_paths(username: &str) -> (r: Vec<String>)
    ensures
        r@.len() == 2,
        r@[0]@ == "C:\\Users\\"@ + username@
            + "\\AppData\\Local\\Packages\\Microsoft.MinecraftUWP_8wekyb3d8bbwe\\LocalState\\games\\com.mojang\\minecraftWorlds"@,
        r@[1]@ == "C:\\Users\\"@ + username@
            + "\\AppData\\Local\\Packages\\Microsoft.MinecraftUWP_8wekyb3d8bbwe\\LocalState\\games\\com.mojang\\development_behavior_packs"@,
{
    let mut worlds = "C:\\Users\\".to_owned();
    worlds.append(username);
    worlds.append(
        "\\AppData\\Local\\Packages\\Microsoft.MinecraftUWP_8wekyb3d8bbwe\\LocalState\\games\\com.mojang\\minecraftWorlds",
    );
    let mut packs = "C:\\Users\\".to_owned();
    packs.append(username);
    packs.append(
        "\\AppData\\Local\\Packages\\Microsoft.MinecraftUWP_8wekyb3d8bbwe\\LocalState\\games\\com.mojang\\development_behavior_packs",
    );
    let mut r: Vec<String> = Vec::new();
    r.push(worlds);
    r.push(packs);
    r
}

} // verus!
