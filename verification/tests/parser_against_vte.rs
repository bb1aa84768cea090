//! The interpreter checked against the `vte` parser on realistic byte
//! streams: both must classify every byte stream into the same prints,
//! control executions and dispatched sequences.

use verbium::plugins::terminal::parser::{Action, Parser};

#[derive(Debug, PartialEq, Clone)]
enum Event {
    Print(char),
    Execute(u8),
    Csi(Vec<u16>, Vec<u8>, u8),
    Esc(u8),
}

#[derive(Default)]
struct Collector {
    events: Vec<Event>,
}

impl vte::Perform for Collector {
    fn print(&mut self, c: char) {
        self.events.push(Event::Print(c));
    }

    fn execute(&mut self, byte: u8) {
        self.events.push(Event::Execute(byte));
    }

    fn hook(&mut self, _params: &vte::Params, _intermediates: &[u8], _ignore: bool, _c: char) {}

    fn put(&mut self, _byte: u8) {}

    fn unhook(&mut self) {}

    fn osc_dispatch(&mut self, _params: &[&[u8]], _bell_terminated: bool) {}

    fn csi_dispatch(
        &mut self,
        params: &vte::Params,
        intermediates: &[u8],
        _ignore: bool,
        c: char,
    ) {
        let firsts: Vec<u16> = params.iter().map(|group| group[0]).collect();
        self.events.push(Event::Csi(firsts, intermediates.to_vec(), c as u8));
    }

    fn esc_dispatch(&mut self, _intermediates: &[u8], _ignore: bool, byte: u8) {
        self.events.push(Event::Esc(byte));
    }
}

fn events_via_vte(bytes: &[u8]) -> Vec<Event> {
    let mut parser = vte::Parser::new();
    let mut collector = Collector::default();
    parser.advance(&mut collector, bytes);
    collector.events
}

fn events_via_engine(bytes: &[u8]) -> Vec<Event> {
    let mut parser = Parser::new();
    let mut events = Vec::new();
    for b in bytes {
        match parser.advance(*b) {
            Some(Action::Print(c)) => events.push(Event::Print(c)),
            Some(Action::Execute(byte)) => events.push(Event::Execute(byte)),
            Some(Action::CsiDispatch { params, intermediates, final_byte }) => {
                events.push(Event::Csi(params, intermediates, final_byte))
            },
            Some(Action::EscDispatch { intermediates: _, byte }) => events.push(Event::Esc(byte)),
            None => {},
        }
    }
    events
}

#[test]
fn agrees_with_vte_on_realistic_streams() {
    let cases: &[&[u8]] = &[
        b"plain text with spaces and 123 digits",
        b"lines\r\nand\ttabs\x08backspace\x07bell",
        b"\x1b[31mred\x1b[0m normal \x1b[1;4;7mstyled\x1b[m",
        b"\x1b[38;5;196mindexed\x1b[48;2;1;2;3mrgb\x1b[39;49m",
        b"\x1b[2J\x1b[H\x1b[3;7H\x1b[10A\x1b[5B\x1b[2C\x1b[4D\x1b[9G\x1b[2d",
        b"\x1b[K\x1b[1K\x1b[2K\x1b[0J\x1b[1J\x1b[3X\x1b[2@\x1b[5P\x1b[2L\x1b[3M",
        b"\x1b[5;20r\x1b[?25l\x1b[?25h\x1b[?1049h\x1b[?1049l\x1b[?1h\x1b[?1l",
        b"\x1b7saved\x1b8\x1bMreverse\x1bc",
        b"\x1b]0;a window title\x07after-bel",
        b"\x1b]2;another title\x1b\\after-st",
        b"\x1bPdevice control payload\x1b\\after-dcs",
        b"\x1b[12\x18cancelled\x1b[3;\x1aalso",
        b"\x1b[;5H\x1b[;H\x1b[m\x1b[H",
        b"\x1b[99999999999;42H",
        b"\x1b(B\x1b)0charset",
        "unicode: 你好 αβγ — done".as_bytes(),
        b"mixed \x1b[7m\xe4\xbd\xa0\x1b[27m end",
    ];
    for case in cases {
        assert_eq!(events_via_engine(case), events_via_vte(case), "case {:?}", case);
    }
}

#[test]
fn agrees_with_vte_under_any_split() {
    let stream: &[u8] = "start\x1b[1;31mcolor\x1b]0;title\x07\x1b[?1049h你好\x1b[2J\x1b[?1049l\x1b[5;10Hend\r\n".as_bytes();
    let reference = events_via_vte(stream);
    assert_eq!(events_via_engine(stream), reference);
    for split in 0..stream.len() {
        let mut parser = Parser::new();
        let mut events = Vec::new();
        for part in [&stream[..split], &stream[split..]] {
            for b in part {
                match parser.advance(*b) {
                    Some(Action::Print(c)) => events.push(Event::Print(c)),
                    Some(Action::Execute(byte)) => events.push(Event::Execute(byte)),
                    Some(Action::CsiDispatch { params, intermediates, final_byte }) => {
                        events.push(Event::Csi(params, intermediates, final_byte))
                    },
                    Some(Action::EscDispatch { intermediates: _, byte }) => {
                        events.push(Event::Esc(byte))
                    },
                    None => {},
                }
            }
        }
        assert_eq!(events, reference, "split at {}", split);
    }
}
