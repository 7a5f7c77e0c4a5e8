use std::cell::RefCell;
use std::rc::Rc;

use longan_nano_playground::esp_at::{EspAt, EspAtError, Serial};

#[derive(Debug, PartialEq)]
struct ReadFailed;

#[derive(Debug, PartialEq)]
struct WriteFailed;

/// A link that replays `input`, records what is written, and fails a write once
/// `write_limit` bytes have gone out.
struct Link {
    input: Vec<u8>,
    pos: usize,
    pending: Vec<u8>,
    sent: Rc<RefCell<Vec<u8>>>,
    write_limit: Option<usize>,
}

impl Serial for Link {
    type ReadError = ReadFailed;
    type WriteError = WriteFailed;

    fn read(&mut self) -> Result<u8, ReadFailed> {
        if !self.pending.is_empty() {
            return Ok(self.pending.remove(0));
        }
        if self.pos < self.input.len() {
            self.pos += 1;
            Ok(self.input[self.pos - 1])
        } else {
            Err(ReadFailed)
        }
    }

    fn write(&mut self, byte: u8) -> Result<(), WriteFailed> {
        let mut sent = self.sent.borrow_mut();
        if let Some(limit) = self.write_limit {
            if sent.len() >= limit {
                return Err(WriteFailed);
            }
        }
        sent.push(byte);
        Ok(())
    }

    fn discard_pending(&mut self) {
        self.pending.clear();
    }
}

type Driver = EspAt<Link>;

fn driver(input: &[u8]) -> (Driver, Rc<RefCell<Vec<u8>>>) {
    let sent = Rc::new(RefCell::new(Vec::new()));
    let link = Link {
        input: input.to_vec(),
        pos: 0,
        pending: Vec::new(),
        sent: sent.clone(),
        write_limit: None,
    };
    (EspAt::new(link), sent)
}

fn sent_text(sent: &Rc<RefCell<Vec<u8>>>) -> Vec<u8> {
    sent.borrow().clone()
}

#[test]
fn echo_off_sends_ate0() {
    let (mut drv, sent) = driver(b"OK\r\n");
    assert_eq!(drv.echo_off(), Ok(()));
    assert_eq!(sent_text(&sent), b"ATE0\r\n".to_vec());
}

#[test]
fn echo_on_sends_ate1() {
    let (mut drv, sent) = driver(b"ATE1\r\n\r\nOK\r\n");
    assert_eq!(drv.echo_on(), Ok(()));
    assert_eq!(sent_text(&sent), b"ATE1\r\n".to_vec());
}

#[test]
fn send_command_appends_crlf() {
    let (mut drv, sent) = driver(b"");
    assert_eq!(drv.send_command("AT+CWMODE=1"), Ok(()));
    assert_eq!(sent_text(&sent), b"AT+CWMODE=1\r\n".to_vec());
}

#[test]
fn cwjap_quotes_both_arguments() {
    let (mut drv, sent) = driver(b"WIFI CONNECTED\r\nWIFI GOT IP\r\n\r\nOK\r\n");
    assert_eq!(drv.cwjap("feather", "secret"), Ok(()));
    assert_eq!(sent_text(&sent), b"AT+CWJAP=\"feather\",\"secret\"\r\n".to_vec());
}

#[test]
fn cwjap_does_not_escape_quotes() {
    let (mut drv, sent) = driver(b"OK\r\n");
    assert_eq!(drv.cwjap("a\"b", ""), Ok(()));
    assert_eq!(sent_text(&sent), b"AT+CWJAP=\"a\"b\",\"\"\r\n".to_vec());
}

#[test]
fn ping_sends_quoted_host() {
    let (mut drv, sent) = driver(b"+PING:27\r\n\r\nOK\r\n");
    assert_eq!(drv.ping("example.com"), Ok(27));
    assert_eq!(sent_text(&sent), b"AT+PING=\"example.com\"\r\n".to_vec());
}

#[test]
fn ping_non_numeric_is_255() {
    let (mut drv, _) = driver(b"+PING:TIMEOUT\r\n\r\nOK\r\n");
    assert_eq!(drv.ping("10.0.0.1"), Ok(255));
}

#[test]
fn ping_too_large_is_255() {
    let (mut drv, _) = driver(b"+PING:4294967296\r\nOK\r\n");
    assert_eq!(drv.ping("h"), Ok(255));
}

#[test]
fn ping_short_payload_is_malformed() {
    let (mut drv, _) = driver(b"+PIN\r\nOK\r\n");
    assert_eq!(drv.ping("h"), Err(EspAtError::Malformed));
}

#[test]
fn ifconfig_sends_query_and_decodes() {
    let (mut drv, sent) = driver(
        b"+CIPSTA:ip:\"192.168.1.9\"\r\n+CIPSTA:gateway:\"192.168.1.1\"\r\n+CIPSTA:netmask:\"255.255.0.0\"\r\n\r\nOK\r\n",
    );
    assert_eq!(
        drv.ifconfig(),
        Ok((b"192.168.1.9".to_vec(), b"192.168.1.1".to_vec(), b"255.255.0.0".to_vec()))
    );
    assert_eq!(sent_text(&sent), b"AT+CIPSTA?\r\n".to_vec());
}

#[test]
fn ifconfig_two_lines_is_malformed() {
    let (mut drv, _) = driver(b"+CIPSTA:ip:\"192.168.1.9\"\r\n+CIPSTA:gateway:\"192.168.1.1\"\r\nOK\r\n");
    assert_eq!(drv.ifconfig(), Err(EspAtError::Malformed));
}

#[test]
fn iwconfig_no_ap() {
    let (mut drv, sent) = driver(b"No AP\r\n\r\nOK\r\n");
    assert_eq!(drv.iwconfig(), Err(EspAtError::NoConnection));
    assert_eq!(sent_text(&sent), b"AT+CWJAP?\r\n".to_vec());
}

#[test]
fn iwconfig_decodes_association() {
    let (mut drv, _) = driver(b"+CWJAP:\"feather\",\"04:d9:f5:c4:93:98\",11,-68,0,0,0,0\r\n\r\nOK\r\n");
    assert_eq!(
        drv.iwconfig(),
        Ok((b"feather".to_vec(), b"04:d9:f5:c4:93:98".to_vec(), 11))
    );
}

#[test]
fn iwconfig_bad_channel_is_255() {
    let (mut drv, _) = driver(b"+CWJAP:\"x\",\"y\",abc\r\nOK\r\n");
    assert_eq!(drv.iwconfig(), Ok((b"x".to_vec(), b"y".to_vec(), 255)));
}

#[test]
fn http_get_plain_and_body_after_first_comma() {
    let (mut drv, sent) = driver(b"+HTTPCLIENT:9,{\"a\":1,\"b\":2}\r\n\r\nOK\r\n");
    assert_eq!(drv.http_get("http://example.com"), Ok(b"{\"a\":1,\"b\":2}".to_vec()));
    assert_eq!(
        sent_text(&sent),
        b"AT+HTTPCLIENT=2,0,\"http://example.com\",,,1\r\n".to_vec()
    );
}

#[test]
fn http_get_https_scheme() {
    let (mut drv, sent) = driver(b"+HTTPCLIENT:2,hi\r\nOK\r\n");
    assert_eq!(drv.http_get("https://example.com"), Ok(b"hi".to_vec()));
    assert_eq!(
        sent_text(&sent),
        b"AT+HTTPCLIENT=2,0,\"https://example.com\",,,2\r\n".to_vec()
    );
}

#[test]
fn http_get_without_comma_is_empty() {
    let (mut drv, _) = driver(b"nothing\r\nOK\r\n");
    assert_eq!(drv.http_get("http://x"), Ok(Vec::new()));
}

#[test]
fn http_post_sends_data() {
    let (mut drv, sent) = driver(b"+HTTPCLIENT:5,a,b,c\r\n\r\nOK\r\n");
    assert_eq!(drv.http_post("https://h/p", "k=v"), Ok(b"a,b,c".to_vec()));
    assert_eq!(
        sent_text(&sent),
        b"AT+HTTPCLIENT=3,0,\"https://h/p\",,,2,\"k=v\"\r\n".to_vec()
    );
}

#[test]
fn read_response_trims_payload() {
    let (mut drv, _) = driver(b"line one\r\nline two  \r\n\r\nOK\r\n");
    assert_eq!(drv.read_response(), Ok(b"line one\r\nline two".to_vec()));
}

#[test]
fn read_response_empty_payload() {
    let (mut drv, _) = driver(b"OK\r\n");
    assert_eq!(drv.read_response(), Ok(Vec::new()));
}

#[test]
fn read_response_stops_at_terminator() {
    let (mut drv, _) = driver(b"first\r\nOK\r\nsecond\r\nOK\r\n");
    assert_eq!(drv.read_response(), Ok(b"first".to_vec()));
    assert_eq!(drv.read_response(), Ok(b"second".to_vec()));
}

#[test]
fn read_response_ok_inside_a_line_is_data() {
    let (mut drv, _) = driver(b"TOOK\rX\r\nOK\r\n");
    assert_eq!(drv.read_response(), Ok(b"TOOK\rX".to_vec()));
}

#[test]
fn read_response_error() {
    let (mut drv, _) = driver(b"something\r\nERROR\r\n");
    assert_eq!(drv.read_response(), Err(EspAtError::Error));
}

#[test]
fn read_response_busy() {
    let (mut drv, _) = driver(b"busy p...\r\n");
    assert_eq!(drv.read_response(), Err(EspAtError::Busy));
}

#[test]
fn echo_off_error_reply() {
    let (mut drv, _) = driver(b"ERROR\r\n");
    assert_eq!(drv.echo_off(), Err(EspAtError::Error));
}

#[test]
fn read_response_overflow() {
    let mut input = vec![b'a'; 1100];
    input.extend_from_slice(b"\r\nOK\r\n");
    let (mut drv, _) = driver(&input);
    assert_eq!(drv.read_response(), Err(EspAtError::BufOverflow));
}

#[test]
fn read_response_overflow_at_exactly_capacity() {
    let mut input = vec![b'a'; 1024];
    input.extend_from_slice(b"\r\nOK\r\n");
    let (mut drv, _) = driver(&input);
    assert_eq!(drv.read_response(), Err(EspAtError::BufOverflow));
}

#[test]
fn read_response_terminator_in_last_byte_fits() {
    let mut input = vec![b'a'; 1020];
    input.extend_from_slice(b"OK\r\n");
    let (mut drv, _) = driver(&input);
    assert_eq!(drv.read_response(), Ok(vec![b'a'; 1020]));
}

#[test]
fn read_response_read_failure() {
    let (mut drv, _) = driver(b"partial");
    assert_eq!(drv.read_response(), Err(EspAtError::SerialRead(ReadFailed)));
}

#[test]
fn write_failure_stops_command() {
    let sent = Rc::new(RefCell::new(Vec::new()));
    let link = Link {
        input: b"OK\r\n".to_vec(),
        pos: 0,
        pending: Vec::new(),
        sent: sent.clone(),
        write_limit: Some(3),
    };
    let mut drv = EspAt::new(link);
    assert_eq!(drv.echo_off(), Err(EspAtError::SerialWrite(WriteFailed)));
    assert_eq!(sent_text(&sent), b"ATE".to_vec());
}

#[test]
fn skip_to_next_drops_pending_output() {
    let sent = Rc::new(RefCell::new(Vec::new()));
    let link = Link {
        input: b"OK\r\n".to_vec(),
        pos: 0,
        pending: b"ready\r\nERROR\r\n".to_vec(),
        sent,
        write_limit: None,
    };
    let mut drv = EspAt::new(link);
    drv.skip_to_next();
    assert_eq!(drv.echo_off(), Ok(()));
}
