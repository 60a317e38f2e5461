use rtc_server::inputs::SAMPLE_ADDRESS;
use rtc_server::{ControlledComponent, UncontrolledComponent};

#[test]
fn controlled_input_follows_each_keystroke() {
    let mut c = ControlledComponent();
    assert_eq!(c.name(), "Controlled");
    assert_eq!(c.caption(), "Name is: Controlled");
    c.on_input("Ada".to_string());
    assert_eq!(c.name(), "Ada");
    assert_eq!(c.caption(), "Name is: Ada");
}

#[test]
fn uncontrolled_input_takes_text_on_submit() {
    let mut u = UncontrolledComponent();
    assert_eq!(u.name(), SAMPLE_ADDRESS);
    assert_eq!(u.field(), SAMPLE_ADDRESS);
    u.on_input("/ip4/1.2.3.4/udp/1".to_string());
    assert_eq!(u.field(), "/ip4/1.2.3.4/udp/1");
    assert_eq!(u.name(), SAMPLE_ADDRESS);
    u.on_submit();
    assert_eq!(u.name(), "/ip4/1.2.3.4/udp/1");
    assert_eq!(u.caption(), "Name is: /ip4/1.2.3.4/udp/1");
}
