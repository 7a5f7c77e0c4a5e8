//! Driver for the esp-at firmware of ESP8266 / ESP32 Wi-Fi modules: one method per AT
//! command, each of which sends the command line, frames the reply and decodes its payload.
use vstd::prelude::*;
use vstd::string::StringSliceAdditionalSpecFns;

use crate::bytes::{
    bytes_eq, copy_range, crlf_line, ends_with_line, has_prefix, lemma_unterminated,
    starts_with, trim_end, trim_end_at, CR, LF,
};
use crate::response::{
    frames, http_body, ifconfig_fields, iwconfig_fields, no_ap, ok_line, parse_http_body,
    parse_ifconfig, parse_iwconfig, parse_ping, ping_value, verdict, BUF_CAPACITY, QUOTE,
};

verus! {

/// Why a command failed.
#[derive(Debug, PartialEq, Eq)]
pub enum EspAtError<ER, EW> {
    /// The module answered `busy p...`: it cannot take a command now.
    Busy,
    /// The reply filled the scratch space before it ended.
    BufOverflow,
    /// The module has joined no network.
    NoConnection,
    /// The module answered `ERROR`.
    Error,
    /// The reply ended in `OK`, but its payload lacks what the command's reply carries.
    Malformed,
    /// The link failed to deliver a byte of the reply.
    SerialRead(ER),
    /// The link failed to take a byte of the command.
    SerialWrite(EW),
}

/// A byte link to the module, which the driver owns.
pub trait Serial {
    type ReadError;

    type WriteError;

    /// Waits for the next byte from the module.
    fn read(&mut self) -> Result<u8, Self::ReadError>;

    /// Waits until the link takes `byte`.
    fn write(&mut self, byte: u8) -> Result<(), Self::WriteError>;

    /// Reads and drops what the module has sent, without waiting: returns once a read would
    /// block, and passes over read errors.
    fn discard_pending(&mut self);
}

/// esp-at driver.
pub struct EspAt<S> {
    serial: S,
    read_buf: Vec<u8>,
    sent: Ghost<Seq<u8>>,
    received: Ghost<Seq<u8>>,
}

/// `text` between double quotes, as the commands quote their string arguments (a quote inside
/// `text` is sent as it is).
pub open spec fn quoted(text: Seq<u8>) -> Seq<u8> {
    seq![QUOTE] + text + seq![QUOTE]
}

/// The digit that tells `AT+HTTPCLIENT` the scheme of `url`: 2 for https, 1 otherwise.
pub open spec fn scheme_digit(url: Seq<u8>) -> Seq<u8> {
    if has_prefix(url, "https".spec_bytes()) {
        "2".spec_bytes()
    } else {
        "1".spec_bytes()
    }
}

pub open spec fn cwjap_command(ssid: Seq<u8>, password: Seq<u8>) -> Seq<u8> {
    crlf_line("AT+CWJAP=".spec_bytes() + quoted(ssid) + ",".spec_bytes() + quoted(password))
}

pub open spec fn ping_command(host: Seq<u8>) -> Seq<u8> {
    crlf_line("AT+PING=".spec_bytes() + quoted(host))
}

pub open spec fn http_get_command(url: Seq<u8>) -> Seq<u8> {
    crlf_line(
        "AT+HTTPCLIENT=2,0,".spec_bytes() + quoted(url) + ",,,".spec_bytes() + scheme_digit(url),
    )
}

pub open spec fn http_post_command(url: Seq<u8>, data: Seq<u8>) -> Seq<u8> {
    crlf_line(
        "AT+HTTPCLIENT=3,0,".spec_bytes() + quoted(url) + ",,,".spec_bytes() + scheme_digit(url)
            + ",".spec_bytes() + quoted(data),
    )
}

/// The bytes that the module sent between `pre` and `post`.
pub open spec fn reply<S: Serial>(pre: EspAt<S>, post: EspAt<S>) -> Seq<u8> {
    post.received().skip(pre.received().len() as int)
}

/// The payload of the reply between `pre` and `post`, where that reply ends in `OK`.
pub open spec fn payload<S: Serial>(pre: EspAt<S>, post: EspAt<S>) -> Seq<u8> {
    let got = reply(pre, post);
    trim_end(got.take(got.len() - ok_line().len()))
}

/// Between `pre` and `post` the driver sent `cmd`, then read a reply that came to `r`; or
/// the link refused a byte of `cmd`, and the bytes before it are all that went out.
pub open spec fn exchange<S: Serial>(
    pre: EspAt<S>,
    post: EspAt<S>,
    cmd: Seq<u8>,
    r: Result<Seq<u8>, EspAtError<S::ReadError, S::WriteError>>,
) -> bool {
    match r {
        Err(EspAtError::SerialWrite(_)) => {
            &&& post.received() == pre.received()
            &&& exists|k: int| 0 <= k < cmd.len() && post.sent() == pre.sent() + cmd.take(k)
        },
        _ => {
            &&& post.sent() == pre.sent() + cmd
            &&& pre.received().is_prefix_of(post.received())
            &&& frames(reply(pre, post), r)
        },
    }
}

/// Appends the bytes of `s` to `v`.
fn push_str(v: &mut Vec<u8>, s: &str)
    ensures
        final(v)@ == old(v)@ + s.spec_bytes(),
{
    let b = s.as_bytes();
    let mut i: usize = 0;
    while i < b.len()
        invariant
            b@ == s.spec_bytes(),
            i <= b@.len(),
            v@ == old(v)@ + b@.take(i as int),
        decreases b@.len() - i,
    {
        v.push(b[i]);
        proof {
            assert(b@.take(i + 1) == b@.take(i as int).push(b@[i as int]));
        }
        i += 1;
    }
    proof {
        assert(b@.take(i as int) == b@);
    }
}

/// Appends `s` to `v` between double quotes.
fn push_quoted(v: &mut Vec<u8>, s: &str)
    ensures
        final(v)@ == old(v)@ + quoted(s.spec_bytes()),
{
    v.push(QUOTE);
    push_str(v, s);
    v.push(QUOTE);
    proof {
        assert(final(v)@ == old(v)@ + quoted(s.spec_bytes()));
    }
}

/// Appends CR LF to `v`.
fn push_crlf(v: &mut Vec<u8>)
    ensures
        final(v)@ == crlf_line(old(v)@),
{
    v.push(CR);
    v.push(LF);
    proof {
        assert(final(v)@ == crlf_line(old(v)@));
    }
}

/// `text` followed by CR LF, as bytes.
fn command_line(text: &str) -> (r: Vec<u8>)
    ensures
        r@ == crlf_line(text.spec_bytes()),
{
    let mut line: Vec<u8> = Vec::new();
    push_str(&mut line, text);
    push_crlf(&mut line);
    proof {
        assert(line@ =~= crlf_line(text.spec_bytes()));
    }
    line
}

impl<S: Serial> EspAt<S> {
    /// Every byte that the link has taken from the driver.
    pub closed spec fn sent(&self) -> Seq<u8> {
        self.sent@
    }

    /// Every byte that the driver has read as reply.
    pub closed spec fn received(&self) -> Seq<u8> {
        self.received@
    }

    pub closed spec fn wf(&self) -> bool {
        self.read_buf@.len() == BUF_CAPACITY
    }

    pub fn new(serial: S) -> (r: Self)
        ensures
            r.wf(),
            r.sent() == Seq::<u8>::empty(),
            r.received() == Seq::<u8>::empty(),
    {
        EspAt {
            serial,
            read_buf: vec![0u8; BUF_CAPACITY],
            sent: Ghost(Seq::empty()),
            received: Ghost(Seq::empty()),
        }
    }

    fn write_byte(&mut self, byte: u8) -> (r: Result<(), EspAtError<S::ReadError, S::WriteError>>)
        requires
            old(self).wf(),
        ensures
            final(self).wf(),
            final(self).received() == old(self).received(),
            match r {
                Ok(_) => final(self).sent() == old(self).sent().push(byte),
                Err(EspAtError::SerialWrite(_)) => final(self).sent() == old(self).sent(),
                _ => false,
            },
    {
        match self.serial.write(byte) {
            Ok(()) => {
                self.sent = Ghost(self.sent@.push(byte));
                Ok(())
            },
            Err(e) => Err(EspAtError::SerialWrite(e)),
        }
    }

    fn write_all(&mut self, buf: &[u8]) -> (r: Result<(), EspAtError<S::ReadError, S::WriteError>>)
        requires
            old(self).wf(),
        ensures
            final(self).wf(),
            final(self).received() == old(self).received(),
            match r {
                Ok(_) => final(self).sent() == old(self).sent() + buf@,
                Err(EspAtError::SerialWrite(_)) => exists|k: int|
                    0 <= k < buf@.len() && final(self).sent() == old(self).sent() + buf@.take(k),
                _ => false,
            },
    {
        let mut i: usize = 0;
        while i < buf.len()
            invariant
                self.wf(),
                i <= buf@.len(),
                self.received() == old(self).received(),
                self.sent() == old(self).sent() + buf@.take(i as int),
            decreases buf@.len() - i,
        {
            match self.write_byte(buf[i]) {
                Ok(()) => {},
                Err(e) => {
                    return Err(e);
                },
            }
            proof {
                assert(buf@.take(i + 1) == buf@.take(i as int).push(buf@[i as int]));
            }
            i += 1;
        }
        proof {
            assert(buf@.take(i as int) == buf@);
        }
        Ok(())
    }

    /// Sends `cmd` and then CR LF.
    pub fn send_command(&mut self, cmd: &str) -> (r: Result<(), EspAtError<S::ReadError, S::WriteError>>)
        requires
            old(self).wf(),
        ensures
            final(self).wf(),
            final(self).received() == old(self).received(),
            match r {
                Ok(_) => final(self).sent() == old(self).sent() + crlf_line(cmd.spec_bytes()),
                Err(EspAtError::SerialWrite(_)) => exists|k: int|
                    0 <= k < crlf_line(cmd.spec_bytes()).len() && final(self).sent() == old(
                        self,
                    ).sent() + crlf_line(cmd.spec_bytes()).take(k),
                _ => false,
            },
    {
        let line = command_line(cmd);
        self.write_all(line.as_slice())
    }

    fn read_byte(&mut self) -> (r: Result<u8, EspAtError<S::ReadError, S::WriteError>>)
        requires
            old(self).wf(),
        ensures
            final(self).wf(),
            final(self).sent() == old(self).sent(),
            final(self).read_buf == old(self).read_buf,
            match r {
                Ok(b) => final(self).received() == old(self).received().push(b),
                Err(EspAtError::SerialRead(_)) => final(self).received() == old(self).received(),
                _ => false,
            },
    {
        match self.serial.read() {
            Ok(b) => {
                self.received = Ghost(self.received@.push(b));
                Ok(b)
            },
            Err(e) => Err(EspAtError::SerialRead(e)),
        }
    }

    /// Reads the reply to the last command, up to the first line that ends it, and returns its
    /// payload: the bytes before the closing `OK`, without trailing whitespace.
    pub fn read_response(&mut self) -> (r: Result<Vec<u8>, EspAtError<S::ReadError, S::WriteError>>)
        requires
            old(self).wf(),
        ensures
            final(self).wf(),
            final(self).sent() == old(self).sent(),
            old(self).received().is_prefix_of(final(self).received()),
            frames(
                final(self).received().skip(old(self).received().len() as int),
                match r {
                    Ok(p) => Ok(p@),
                    Err(e) => Err(e),
                },
            ),
    {
        let ghost start = self.received@;
        let mut i: usize = 0;
        loop
            invariant
                self.wf(),
                i < BUF_CAPACITY,
                self.sent() == old(self).sent(),
                start == old(self).received(),
                self.received() == start + self.read_buf@.take(i as int),
                forall|k: int|
                    0 <= k <= i ==> (#[trigger] verdict::<S::ReadError, S::WriteError>(
                        self.read_buf@.take(k),
                    )) is None,
            decreases BUF_CAPACITY - i,
        {
            let ghost before = self.read_buf@.take(i as int);
            let byte = match self.read_byte() {
                Ok(b) => b,
                Err(e) => {
                    proof {
                        assert(self.received().skip(start.len() as int) =~= before);
                        assert forall|k: int| 0 <= k < before.len() implies (
                        #[trigger] verdict::<S::ReadError, S::WriteError>(before.take(k))) is None by {
                            assert(before.take(k) =~= self.read_buf@.take(k));
                        }
                    }
                    return Err(e);
                },
            };
            let ghost got = before.push(byte);
            proof {
                assert(self.received().skip(start.len() as int) =~= got);
                assert forall|k: int| 0 <= k < got.len() implies (
                #[trigger] verdict::<S::ReadError, S::WriteError>(got.take(k))) is None by {
                    assert(got.take(k) =~= self.read_buf@.take(k));
                }
            }
            if byte == LF {
                let ok = "OK".as_bytes();
                if ends_with_line(self.read_buf.as_slice(), i, ok) {
                    let end = trim_end_at(self.read_buf.as_slice(), i - 1 - ok.len());
                    proof {
                        assert(self.read_buf@.subrange(0, i - 1 - ok@.len()) =~= got.take(
                            got.len() - ok_line().len(),
                        ));
                    }
                    return Ok(copy_range(self.read_buf.as_slice(), 0, end));
                }
                if ends_with_line(self.read_buf.as_slice(), i, "ERROR".as_bytes()) {
                    return Err(EspAtError::Error);
                }
                if ends_with_line(self.read_buf.as_slice(), i, "busy p...".as_bytes()) {
                    return Err(EspAtError::Busy);
                }
            } else {
                proof {
                    lemma_unterminated(got, "OK".spec_bytes());
                    lemma_unterminated(got, "ERROR".spec_bytes());
                    lemma_unterminated(got, "busy p...".spec_bytes());
                }
            }
            self.read_buf[i] = byte;
            proof {
                assert(self.read_buf@.take(i + 1) =~= got);
            }
            if i + 1 >= BUF_CAPACITY {
                return Err(EspAtError::BufOverflow);
            }
            proof {
                assert forall|k: int| 0 <= k <= i + 1 implies (
                #[trigger] verdict::<S::ReadError, S::WriteError>(self.read_buf@.take(k))) is None by {
                    if k <= i {
                        assert(self.read_buf@.take(k) =~= got.take(k));
                    }
                }
            }
            i += 1;
        }
    }

    /// Drops what the module has sent unasked (a boot banner, say), so that the next reply
    /// read is the answer to the next command.
    pub fn skip_to_next(&mut self)
        requires
            old(self).wf(),
        ensures
            final(self).wf(),
            final(self).sent() == old(self).sent(),
            final(self).received() == old(self).received(),
    {
        self.serial.discard_pending();
    }
    /// Sends the command line `cmd` and reads the reply to it.
    fn transact(&mut self, cmd: &[u8]) -> (r: Result<Vec<u8>, EspAtError<S::ReadError, S::WriteError>>)
        requires
            old(self).wf(),
        ensures
            final(self).wf(),
            exchange(
                *old(self),
                *final(self),
                cmd@,
                match r {
                    Ok(p) => Ok(p@),
                    Err(e) => Err(e),
                },
            ),
    {
        self.write_all(cmd)?;
        self.read_response()
    }

    /// `ATE0`: the module stops echoing commands.
    pub fn echo_off(&mut self) -> (r: Result<(), EspAtError<S::ReadError, S::WriteError>>)
        requires
            old(self).wf(),
        ensures
            final(self).wf(),
            match r {
                Ok(_) => exchange(
                    *old(self),
                    *final(self),
                    crlf_line("ATE0".spec_bytes()),
                    Ok(payload(*old(self), *final(self))),
                ),
                Err(e) => exchange(*old(self), *final(self), crlf_line("ATE0".spec_bytes()), Err(e)),
            },
    {
        let cmd = command_line("ATE0");
        match self.transact(cmd.as_slice()) {
            Ok(_) => Ok(()),
            Err(e) => Err(e),
        }
    }

    /// `ATE1`: the module echoes commands.
    pub fn echo_on(&mut self) -> (r: Result<(), EspAtError<S::ReadError, S::WriteError>>)
        requires
            old(self).wf(),
        ensures
            final(self).wf(),
            match r {
                Ok(_) => exchange(
                    *old(self),
                    *final(self),
                    crlf_line("ATE1".spec_bytes()),
                    Ok(payload(*old(self), *final(self))),
                ),
                Err(e) => exchange(*old(self), *final(self), crlf_line("ATE1".spec_bytes()), Err(e)),
            },
    {
        let cmd = command_line("ATE1");
        match self.transact(cmd.as_slice()) {
            Ok(_) => Ok(()),
            Err(e) => Err(e),
        }
    }

    /// `AT+CIPSTA?`: the station's (ip, gateway, netmask).
    pub fn ifconfig(&mut self) -> (r: Result<
        (Vec<u8>, Vec<u8>, Vec<u8>),
        EspAtError<S::ReadError, S::WriteError>,
    >)
        requires
            old(self).wf(),
        ensures
            final(self).wf(),
            match r {
                Ok((ip, gateway, netmask)) => {
                    &&& exchange(
                        *old(self),
                        *final(self),
                        crlf_line("AT+CIPSTA?".spec_bytes()),
                        Ok(payload(*old(self), *final(self))),
                    )
                    &&& ifconfig_fields(payload(*old(self), *final(self))) == Some(
                        (ip@, gateway@, netmask@),
                    )
                },
                Err(EspAtError::Malformed) => {
                    &&& exchange(
                        *old(self),
                        *final(self),
                        crlf_line("AT+CIPSTA?".spec_bytes()),
                        Ok(payload(*old(self), *final(self))),
                    )
                    &&& ifconfig_fields(payload(*old(self), *final(self))) is None
                },
                Err(e) => exchange(
                    *old(self),
                    *final(self),
                    crlf_line("AT+CIPSTA?".spec_bytes()),
                    Err(e),
                ),
            },
    {
        let cmd = command_line("AT+CIPSTA?");
        let p = self.transact(cmd.as_slice())?;
        match parse_ifconfig(p.as_slice()) {
            Some(fields) => Ok(fields),
            None => Err(EspAtError::Malformed),
        }
    }

    /// `AT+CWJAP?`: the (ssid, bssid, channel) of the network that the module has joined.
    pub fn iwconfig(&mut self) -> (r: Result<(Vec<u8>, Vec<u8>, u8), EspAtError<S::ReadError, S::WriteError>>)
        requires
            old(self).wf(),
        ensures
            final(self).wf(),
            match r {
                Ok((ssid, bssid, channel)) => {
                    &&& exchange(
                        *old(self),
                        *final(self),
                        crlf_line("AT+CWJAP?".spec_bytes()),
                        Ok(payload(*old(self), *final(self))),
                    )
                    &&& payload(*old(self), *final(self)) != no_ap()
                    &&& iwconfig_fields(payload(*old(self), *final(self))) == Some(
                        (ssid@, bssid@, channel),
                    )
                },
                Err(EspAtError::NoConnection) => {
                    &&& exchange(
                        *old(self),
                        *final(self),
                        crlf_line("AT+CWJAP?".spec_bytes()),
                        Ok(payload(*old(self), *final(self))),
                    )
                    &&& payload(*old(self), *final(self)) == no_ap()
                },
                Err(EspAtError::Malformed) => {
                    &&& exchange(
                        *old(self),
                        *final(self),
                        crlf_line("AT+CWJAP?".spec_bytes()),
                        Ok(payload(*old(self), *final(self))),
                    )
                    &&& payload(*old(self), *final(self)) != no_ap()
                    &&& iwconfig_fields(payload(*old(self), *final(self))) is None
                },
                Err(e) => exchange(
                    *old(self),
                    *final(self),
                    crlf_line("AT+CWJAP?".spec_bytes()),
                    Err(e),
                ),
            },
    {
        let cmd = command_line("AT+CWJAP?");
        let p = self.transact(cmd.as_slice())?;
        if bytes_eq(p.as_slice(), "No AP".as_bytes()) {
            return Err(EspAtError::NoConnection);
        }
        match parse_iwconfig(p.as_slice()) {
            Some(fields) => Ok(fields),
            None => Err(EspAtError::Malformed),
        }
    }

    /// `AT+CWJAP="<ssid>","<password>"`: joins a network.
    pub fn cwjap(&mut self, ssid: &str, password: &str) -> (r: Result<
        (),
        EspAtError<S::ReadError, S::WriteError>,
    >)
        requires
            old(self).wf(),
        ensures
            final(self).wf(),
            match r {
                Ok(_) => exchange(
                    *old(self),
                    *final(self),
                    cwjap_command(ssid.spec_bytes(), password.spec_bytes()),
                    Ok(payload(*old(self), *final(self))),
                ),
                Err(e) => exchange(
                    *old(self),
                    *final(self),
                    cwjap_command(ssid.spec_bytes(), password.spec_bytes()),
                    Err(e),
                ),
            },
    {
        let mut cmd: Vec<u8> = Vec::new();
        push_str(&mut cmd, "AT+CWJAP=");
        push_quoted(&mut cmd, ssid);
        push_str(&mut cmd, ",");
        push_quoted(&mut cmd, password);
        push_crlf(&mut cmd);
        proof {
            assert(cmd@ =~= cwjap_command(ssid.spec_bytes(), password.spec_bytes()));
        }
        match self.transact(cmd.as_slice()) {
            Ok(_) => Ok(()),
            Err(e) => Err(e),
        }
    }

    /// `AT+PING="<host>"`: the round trip to `host` in milliseconds.
    pub fn ping(&mut self, host: &str) -> (r: Result<u32, EspAtError<S::ReadError, S::WriteError>>)
        requires
            old(self).wf(),
        ensures
            final(self).wf(),
            match r {
                Ok(ms) => {
                    &&& exchange(
                        *old(self),
                        *final(self),
                        ping_command(host.spec_bytes()),
                        Ok(payload(*old(self), *final(self))),
                    )
                    &&& ping_value(payload(*old(self), *final(self))) == Some(ms)
                },
                Err(EspAtError::Malformed) => {
                    &&& exchange(
                        *old(self),
                        *final(self),
                        ping_command(host.spec_bytes()),
                        Ok(payload(*old(self), *final(self))),
                    )
                    &&& ping_value(payload(*old(self), *final(self))) is None
                },
                Err(e) => exchange(*old(self), *final(self), ping_command(host.spec_bytes()), Err(e)),
            },
    {
        let mut cmd: Vec<u8> = Vec::new();
        push_str(&mut cmd, "AT+PING=");
        push_quoted(&mut cmd, host);
        push_crlf(&mut cmd);
        proof {
            assert(cmd@ =~= ping_command(host.spec_bytes()));
        }
        let p = self.transact(cmd.as_slice())?;
        match parse_ping(p.as_slice()) {
            Some(ms) => Ok(ms),
            None => Err(EspAtError::Malformed),
        }
    }

    /// Appends the scheme digit of `url` to `cmd`.
    fn push_scheme(cmd: &mut Vec<u8>, url: &str)
        ensures
            final(cmd)@ == old(cmd)@ + scheme_digit(url.spec_bytes()),
    {
        if starts_with(url.as_bytes(), "https".as_bytes()) {
            push_str(cmd, "2");
        } else {
            push_str(cmd, "1");
        }
    }

    /// `AT+HTTPCLIENT=2,0,"<url>",,,<scheme>`: GET; the reply after its first comma.
    pub fn http_get(&mut self, url: &str) -> (r: Result<Vec<u8>, EspAtError<S::ReadError, S::WriteError>>)
        requires
            old(self).wf(),
        ensures
            final(self).wf(),
            match r {
                Ok(body) => {
                    &&& exchange(
                        *old(self),
                        *final(self),
                        http_get_command(url.spec_bytes()),
                        Ok(payload(*old(self), *final(self))),
                    )
                    &&& body@ == http_body(payload(*old(self), *final(self)))
                },
                Err(e) => exchange(
                    *old(self),
                    *final(self),
                    http_get_command(url.spec_bytes()),
                    Err(e),
                ),
            },
    {
        let mut cmd: Vec<u8> = Vec::new();
        push_str(&mut cmd, "AT+HTTPCLIENT=2,0,");
        push_quoted(&mut cmd, url);
        push_str(&mut cmd, ",,,");
        Self::push_scheme(&mut cmd, url);
        push_crlf(&mut cmd);
        proof {
            assert(cmd@ =~= http_get_command(url.spec_bytes()));
        }
        let p = self.transact(cmd.as_slice())?;
        Ok(parse_http_body(p.as_slice()))
    }

    /// `AT+HTTPCLIENT=3,0,"<url>",,,<scheme>,"<data>"`: POST; the reply after its first comma.
    pub fn http_post(&mut self, url: &str, data: &str) -> (r: Result<
        Vec<u8>,
        EspAtError<S::ReadError, S::WriteError>,
    >)
        requires
            old(self).wf(),
        ensures
            final(self).wf(),
            match r {
                Ok(body) => {
                    &&& exchange(
                        *old(self),
                        *final(self),
                        http_post_command(url.spec_bytes(), data.spec_bytes()),
                        Ok(payload(*old(self), *final(self))),
                    )
                    &&& body@ == http_body(payload(*old(self), *final(self)))
                },
                Err(e) => exchange(
                    *old(self),
                    *final(self),
                    http_post_command(url.spec_bytes(), data.spec_bytes()),
                    Err(e),
                ),
            },
    {
        let mut cmd: Vec<u8> = Vec::new();
        push_str(&mut cmd, "AT+HTTPCLIENT=3,0,");
        push_quoted(&mut cmd, url);
        push_str(&mut cmd, ",,,");
        Self::push_scheme(&mut cmd, url);
        push_str(&mut cmd, ",");
        push_quoted(&mut cmd, data);
        push_crlf(&mut cmd);
        proof {
            assert(cmd@ =~= http_post_command(url.spec_bytes(), data.spec_bytes()));
        }
        let p = self.transact(cmd.as_slice())?;
        Ok(parse_http_body(p.as_slice()))
    }
}

} // verus!
