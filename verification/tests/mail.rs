use cca_club_hub::mail::{decimal, reset_link, reset_mail, welcome_mail};

#[test]
fn decimal_writes_numerals() {
    assert_eq!(decimal(0), "0");
    assert_eq!(decimal(7), "7");
    assert_eq!(decimal(10), "10");
    assert_eq!(decimal(60), "60");
    assert_eq!(decimal(1_234_567_890), "1234567890");
    assert_eq!(decimal(u64::MAX), "18446744073709551615");
}

#[test]
fn link_embeds_the_identifier() {
    assert_eq!(
        reset_link("https://hub.example.org", "V1StGXR8_Z5jdHi6B-myT"),
        "https://hub.example.org/password/V1StGXR8_Z5jdHi6B-myT"
    );
    assert_eq!(reset_link("", ""), "/password/");
}

#[test]
fn reset_mail_reads_as_written() {
    let mail = reset_mail("chess", "chess@example.org", "https://h/password/x", 60);
    assert_eq!(mail.to_name, "chess");
    assert_eq!(mail.to_address, "chess@example.org");
    assert_eq!(mail.subject, "CCA Club Hub Password Reset");
    assert_eq!(
        mail.body,
        "Hi chess,\n\nWe have received a request to change your CCA Club Hub password. To reset your password, please click the below link within the next 60 minutes (or paste it into your browser if clicking is not working):\n\nhttps://h/password/x\n\nIf you did not request this password reset you can disregard this message and your password will remain unchanged.\n\nThanks,\nThe CCA Club Hub Team."
    );
}

#[test]
fn welcome_mail_reads_as_written() {
    let mail = welcome_mail("chess", "chess@example.org", "https://h/password/x");
    assert_eq!(mail.to_name, "chess");
    assert_eq!(mail.to_address, "chess@example.org");
    assert_eq!(mail.subject, "Welcome to the CCA Club Hub!");
    assert_eq!(
        mail.body,
        "Hi chess,\n\nWelcome to the CCA Club Hub! We are so excited to have you here. To finish setting up your account, go ahead and open that link to set a password for your account, then login with the username \"chess\" and your new password!\n\nhttps://h/password/x\n\nThis link will expire in 7 days (or when the server restarts), so if you need a new link, just use the \"Forgot your password?\" link on the login page to create a new link.\n\nThanks,\nThe CCA Club Hub Team."
    );
}
