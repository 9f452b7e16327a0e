use yeelight_core::firewall::{after_allow, after_pkexec, after_status, is_open, rule, status_allows, CmdRun, Next};
use yeelight_core::Error;

const ACTIVE: &str = "Status: active\n\nTo  Action  From\n--  ------  ----\n1982/udp  ALLOW  Anywhere\n";

#[test]
fn reads_ufw_status() {
    let active = ACTIVE;
    assert!(status_allows(active, "1982/udp"));
    assert!(!status_allows(active, "55443/tcp"));
    assert!(status_allows("Status: inactive\n", "1982/udp"));
}

#[test]
fn rule_text() {
    assert_eq!(rule(1982, "udp"), "1982/udp");
    assert_eq!(rule(54321, "tcp"), "54321/tcp");
}

#[test]
fn status_decisions() {
    assert_eq!(after_status("1982/udp", CmdRun::NotFound), Next::Done(Ok(())));
    assert_eq!(
        after_status("1982/udp", CmdRun::Exited { success: true, stdout: ACTIVE.to_string() }),
        Next::Done(Ok(()))
    );
    assert_eq!(
        after_status("55443/tcp", CmdRun::Exited { success: true, stdout: ACTIVE.to_string() }),
        Next::Allow
    );
    assert_eq!(
        after_status("1982/udp", CmdRun::Exited { success: false, stdout: String::new() }),
        Next::Done(Err(Error::Firewall(
            "`ufw status` failed (needs root?). Run manually: sudo ufw allow 1982/udp".to_string()
        )))
    );
    assert_eq!(
        after_status("1982/udp", CmdRun::Failed("denied".to_string())),
        Next::Done(Err(Error::Firewall("running `ufw status`: denied".to_string())))
    );
}

#[test]
fn allow_outcomes() {
    assert_eq!(after_allow("1982/udp", Ok(true)), Ok(()));
    assert_eq!(
        after_allow("1982/udp", Ok(false)),
        Err(Error::Firewall(
            "`ufw allow 1982/udp` failed (needs root?). Run manually: sudo ufw allow 1982/udp".to_string()
        ))
    );
    assert_eq!(
        after_allow("1982/udp", Err("boom".to_string())),
        Err(Error::Firewall("running `ufw allow 1982/udp`: boom".to_string()))
    );
}

#[test]
fn is_open_outcomes() {
    assert_eq!(is_open("1982/udp", CmdRun::NotFound), Ok(true));
    assert_eq!(is_open("1982/udp", CmdRun::Exited { success: false, stdout: String::new() }), Ok(false));
    assert_eq!(
        is_open("55443/tcp", CmdRun::Exited { success: true, stdout: ACTIVE.to_string() }),
        Ok(false)
    );
    assert_eq!(
        is_open("1982/udp", CmdRun::Failed("x".to_string())),
        Err(Error::Firewall("running `ufw status`: x".to_string()))
    );
}

#[test]
fn pkexec_outcomes() {
    assert_eq!(after_pkexec("1982/udp", CmdRun::Exited { success: true, stdout: String::new() }), Ok(()));
    assert_eq!(
        after_pkexec("1982/udp", CmdRun::NotFound),
        Err(Error::Firewall("`pkexec` not found. Run manually: sudo ufw allow 1982/udp".to_string()))
    );
    assert_eq!(
        after_pkexec("1982/udp", CmdRun::Exited { success: false, stdout: String::new() }),
        Err(Error::Firewall(
            "opening the firewall was cancelled or failed. Run manually: sudo ufw allow 1982/udp"
                .to_string()
        ))
    );
    assert_eq!(
        after_pkexec("1982/udp", CmdRun::Failed("e".to_string())),
        Err(Error::Firewall("running `pkexec ufw allow 1982/udp`: e".to_string()))
    );
}

#[test]
fn only_an_exact_allow_rule_counts() {
    assert!(!status_allows("Status: active\n11982/udp  ALLOW  Anywhere\n", "1982/udp"));
    assert!(!status_allows("Status: active\n1982/udp  DENY  Anywhere\n", "1982/udp"));
    assert!(status_allows("Status: active\n1982/udp (v6)  ALLOW  Anywhere (v6)\n", "1982/udp"));
    assert!(status_allows("Status: active\r\n1982/udp ALLOW Anywhere\r\n", "1982/udp"));
    assert!(!status_allows("Status: active\n1982/udp  ALLOW OUT  Anywhere (out)\n", "1982/udp"));
    assert!(!status_allows("Status: active\n1982/udp  ALLOW FWD  Anywhere\n", "1982/udp"));
    assert!(status_allows("Status: active\n1982/udp  ALLOW IN  Anywhere\n", "1982/udp"));
    assert!(status_allows("Status: active\n1982/udp  ALLOW\n", "1982/udp"));
    let denied = CmdRun::Exited { success: true, stdout: "Status: active\n1982/udp  DENY  Anywhere\n".to_string() };
    assert_eq!(after_status("1982/udp", denied), Next::Allow);
}
