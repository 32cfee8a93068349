//! The messages that carry a reset link to a club.
//!
//! Delivery is somebody else's work: this module only says what is sent, to
//! whom, and what the link in it looks like.

use vstd::prelude::*;
use vstd::string::*;

verus! {

/// A message, ready to be handed to whoever delivers mail.
#[derive(Clone, Debug)]
pub struct Mail {
    /// The name the recipient is addressed by.
    pub to_name: String,
    /// The recipient's address.
    pub to_address: String,
    /// The subject line.
    pub subject: String,
    /// The text.
    pub body: String,
}

/// The subject of a message that answers a reset request.
pub const RESET_SUBJECT: &'static str = "CCA Club Hub Password Reset";

/// The subject of a message that welcomes a new club.
pub const WELCOME_SUBJECT: &'static str = "Welcome to the CCA Club Hub!";

/// The character that writes the digit `d`.
pub open spec fn digit_char(d: int) -> char {
    if d == 0 {
        '0'
    } else if d == 1 {
        '1'
    } else if d == 2 {
        '2'
    } else if d == 3 {
        '3'
    } else if d == 4 {
        '4'
    } else if d == 5 {
        '5'
    } else if d == 6 {
        '6'
    } else if d == 7 {
        '7'
    } else if d == 8 {
        '8'
    } else {
        '9'
    }
}

/// The decimal numeral of `n`, without leading zeros.
pub open spec fn decimal_of(n: nat) -> Seq<char>
    decreases n,
{
    if n < 10 {
        seq![digit_char(n as int)]
    } else {
        decimal_of(n / 10).push(digit_char((n % 10) as int))
    }
}

/// The link that redeems the token `identifier` on the site at `host`.
pub open spec fn link_text(host: Seq<char>, identifier: Seq<char>) -> Seq<char> {
    host + "/password/"@ + identifier
}

/// The text that answers a reset request.
pub open spec fn reset_text(username: Seq<char>, minutes: Seq<char>, link: Seq<char>) -> Seq<
    char,
> {
    "Hi "@ + username
        + ",\n\nWe have received a request to change your CCA Club Hub password. To reset your password, please click the below link within the next "@
        + minutes
        + " minutes (or paste it into your browser if clicking is not working):\n\n"@
        + link
        + "\n\nIf you did not request this password reset you can disregard this message and your password will remain unchanged.\n\nThanks,\nThe CCA Club Hub Team."@
}

/// The text that welcomes a new club.
pub open spec fn welcome_text(username: Seq<char>, link: Seq<char>) -> Seq<char> {
    "Hi "@ + username
        + ",\n\nWelcome to the CCA Club Hub! We are so excited to have you here. To finish setting up your account, go ahead and open that link to set a password for your account, then login with the username \""@
        + username + "\" and your new password!\n\n"@ + link
        + "\n\nThis link will expire in 7 days (or when the server restarts), so if you need a new link, just use the \"Forgot your password?\" link on the login page to create a new link.\n\nThanks,\nThe CCA Club Hub Team."@
}

fn digit(d: u64) -> (s: &'static str)
    requires
        d < 10,
    ensures
        s@ == seq![digit_char(d as int)],
{
    proof {
        reveal_strlit("0");
        reveal_strlit("1");
        reveal_strlit("2");
        reveal_strlit("3");
        reveal_strlit("4");
        reveal_strlit("5");
        reveal_strlit("6");
        reveal_strlit("7");
        reveal_strlit("8");
        reveal_strlit("9");
    }
    let s = if d == 0 {
        "0"
    } else if d == 1 {
        "1"
    } else if d == 2 {
        "2"
    } else if d == 3 {
        "3"
    } else if d == 4 {
        "4"
    } else if d == 5 {
        "5"
    } else if d == 6 {
        "6"
    } else if d == 7 {
        "7"
    } else if d == 8 {
        "8"
    } else {
        "9"
    };
    assert(s@ =~= seq![digit_char(d as int)]);
    s
}

/// Writes `n` as a decimal numeral.
pub fn decimal(n: u64) -> (s: String)
    ensures
        s@ == decimal_of(n as nat),
{
    let mut s = String::from_str(digit(n % 10));
    let mut rest = n / 10;
    proof {
        if rest > 0 {
            assert(decimal_of(n as nat) =~= decimal_of(rest as nat) + s@);
        }
    }
    while rest > 0
        invariant
            decimal_of(n as nat) == if rest == 0 {
                s@
            } else {
                decimal_of(rest as nat) + s@
            },
        decreases rest,
    {
        let head = String::from_str(digit(rest % 10));
        proof {
            let next = (rest / 10) as nat;
            if next == 0 {
                assert(decimal_of(rest as nat) + s@ =~= head@ + s@);
            } else {
                assert(decimal_of(rest as nat) + s@ =~= decimal_of(next) + (head@ + s@));
            }
        }
        s = head.concat(s.as_str());
        rest = rest / 10;
    }
    s
}

/// Makes the link that redeems the token `identifier` on the site at `host`.
pub fn reset_link(host: &str, identifier: &str) -> (link: String)
    ensures
        link@ == link_text(host@, identifier@),
{
    String::from_str(host).concat("/password/").concat(identifier)
}

/// Writes the message that answers a reset request: it greets the club by
/// its handle, names the minutes within which the link is good, and holds
/// the link.
pub fn reset_mail(username: &str, address: &str, link: &str, minutes: u64) -> (mail: Mail)
    ensures
        mail.to_name@ == username@,
        mail.to_address@ == address@,
        mail.subject@ == RESET_SUBJECT@,
        mail.body@ == reset_text(username@, decimal_of(minutes as nat), link@),
{
    let count = decimal(minutes);
    let body = String::from_str("Hi ").concat(username).concat(
        ",\n\nWe have received a request to change your CCA Club Hub password. To reset your password, please click the below link within the next ",
    ).concat(count.as_str()).concat(
        " minutes (or paste it into your browser if clicking is not working):\n\n",
    ).concat(link).concat(
        "\n\nIf you did not request this password reset you can disregard this message and your password will remain unchanged.\n\nThanks,\nThe CCA Club Hub Team.",
    );
    Mail {
        to_name: String::from_str(username),
        to_address: String::from_str(address),
        subject: String::from_str(RESET_SUBJECT),
        body,
    }
}

/// Writes the message that welcomes a new club: it greets the club by its
/// handle, tells it the handle to log in with, and holds the link.
pub fn welcome_mail(username: &str, address: &str, link: &str) -> (mail: Mail)
    ensures
        mail.to_name@ == username@,
        mail.to_address@ == address@,
        mail.subject@ == WELCOME_SUBJECT@,
        mail.body@ == welcome_text(username@, link@),
{
    let body = String::from_str("Hi ").concat(username).concat(
        ",\n\nWelcome to the CCA Club Hub! We are so excited to have you here. To finish setting up your account, go ahead and open that link to set a password for your account, then login with the username \"",
    ).concat(username).concat("\" and your new password!\n\n").concat(link).concat(
        "\n\nThis link will expire in 7 days (or when the server restarts), so if you need a new link, just use the \"Forgot your password?\" link on the login page to create a new link.\n\nThanks,\nThe CCA Club Hub Team.",
    );
    Mail {
        to_name: String::from_str(username),
        to_address: String::from_str(address),
        subject: String::from_str(WELCOME_SUBJECT),
        body,
    }
}

} // verus!
