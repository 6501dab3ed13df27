use hanashite::hanashite_server::configuration::{self as hcfg, LevelFilter, Logging};
use hanashite::rust_server::configuration as rcfg;

#[test]
fn hanashite_defaults() {
    let c = hcfg::default();
    assert_eq!(4, c.runtime.threads);
    assert_eq!("hana-work", c.runtime.thread_name);
    assert_eq!(3 * 1024 * 1024, c.runtime.thread_stack);
    assert_eq!(9876, c.server.tcp_port);
    assert_eq!("0.0.0.0", c.server.tcp_bind_ip);
    assert_eq!(9876, c.server.udp_port);
    assert_eq!("0.0.0.0", c.server.udp_bind_ip);
    assert_eq!(18, c.server.udp_buffer);
    assert_eq!(LevelFilter::Trace, c.logging.level);
}

#[test]
fn level_names() {
    for (name, level) in [
        ("All", LevelFilter::Off),
        ("Trace", LevelFilter::Trace),
        ("Debug", LevelFilter::Debug),
        ("Info", LevelFilter::Info),
        ("Warn", LevelFilter::Warn),
        ("Error", LevelFilter::Error),
    ] {
        assert_eq!(level, Logging::deserialize_filter(&name.to_string()));
    }
}

#[test]
fn relay_defaults() {
    let c = rcfg::Config::default();
    assert_eq!(4, c.runtime.threads);
    assert_eq!("hana-work", c.runtime.thread_name);
    assert_eq!(9876, c.server.port);
    assert_eq!("0.0.0.0", c.server.ip);
    assert_eq!(9876, rcfg::Server::default_port());
    assert_eq!(3 * 1024 * 1024, rcfg::Runtime::default_thread_stack());
}

#[test]
fn configuration_testconfig() {
    let myconfig = hcfg::default();
    assert_eq!(myconfig.server.tcp_port, 9876);
    assert_eq!(myconfig.server.tcp_bind_ip, "0.0.0.0");
    println!("Config: {:#?}", myconfig);
}
