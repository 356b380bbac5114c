//! An in-memory transport that captures what is written, for tests.

use vstd::prelude::*;
use super::Transport;
use crate::errors::{PrinterError, Result};

verus! {

/// Behaviour the mock transport simulates.
#[derive(Debug, Clone, Copy, PartialEq, Eq, Structural)]
pub struct MockConfig {
    /// `connect()` fails.
    pub fail_on_connect: bool,
    /// `write()` fails.
    pub fail_on_write: bool,
    /// The transport starts connected.
    pub starts_connected: bool,
}

impl Default for MockConfig {
    fn default() -> (c: Self)
        ensures
            !c.fail_on_connect && !c.fail_on_write && !c.starts_connected,
    {
        MockConfig { fail_on_connect: false, fail_on_write: false, starts_connected: false }
    }
}

/// In-memory transport: what is written is captured, reads give back preset
/// data.
///
/// The capture is owned by the transport and read back with
/// `written_bytes`: a buffer shared with the caller behind a lock would be
/// written through shared references, whose contents the contracts cannot
/// follow.
pub struct MockTransport {
    config: MockConfig,
    connected: bool,
    buffer: Vec<u8>,
    read_data: Vec<u8>,
}

impl MockTransport {
    /// The simulated behaviour.
    pub closed spec fn config(&self) -> MockConfig {
        self.config
    }

    /// Whether the transport is connected.
    pub closed spec fn connected(&self) -> bool {
        self.connected
    }

    /// The bytes captured so far.
    pub closed spec fn written(&self) -> Seq<u8> {
        self.buffer@
    }

    /// The data reads give back.
    pub closed spec fn read_data(&self) -> Seq<u8> {
        self.read_data@
    }

    /// A mock transport that succeeds at everything, disconnected, with
    /// nothing captured.
    pub fn new() -> (t: Self)
        ensures
            !t.config().fail_on_connect && !t.config().fail_on_write && !t.config().starts_connected,
            !t.connected(),
            t.written() == Seq::<u8>::empty(),
            t.read_data() == Seq::<u8>::empty(),
    {
        MockTransport { config: MockConfig::default(), connected: false, buffer: Vec::new(), read_data: Vec::new() }
    }

    /// A mock transport whose capture starts with the contents of `buffer`.
    pub fn new_with_buffer(buffer: Vec<u8>) -> (t: Self)
        ensures
            !t.config().fail_on_connect && !t.config().fail_on_write && !t.config().starts_connected,
            !t.connected(),
            t.written() == buffer@,
            t.read_data() == Seq::<u8>::empty(),
    {
        MockTransport { config: MockConfig::default(), connected: false, buffer, read_data: Vec::new() }
    }

    /// Sets the simulated behaviour; the connection state becomes
    /// `config.starts_connected`.
    pub fn with_config(self, config: MockConfig) -> (t: Self)
        ensures
            t.config() == config,
            t.connected() == config.starts_connected,
            t.written() == self.written(),
            t.read_data() == self.read_data(),
    {
        let mut t = self;
        t.connected = config.starts_connected;
        t.config = config;
        t
    }

    /// Sets the data reads give back (for example a simulated status).
    pub fn with_read_data(self, data: Vec<u8>) -> (t: Self)
        ensures
            t.config() == self.config(),
            t.connected() == self.connected(),
            t.written() == self.written(),
            t.read_data() == data@,
    {
        let mut t = self;
        t.read_data = data;
        t
    }

    /// A copy of all the bytes written so far.
    pub fn written_bytes(&self) -> (r: Vec<u8>)
        ensures
            r@ == self.written(),
    {
        self.buffer.clone()
    }

    /// Empties the capture.
    pub fn clear(&mut self)
        ensures
            final(self).written() == Seq::<u8>::empty(),
            final(self).config() == old(self).config(),
            final(self).connected() == old(self).connected(),
            final(self).read_data() == old(self).read_data(),
    {
        self.buffer.clear();
    }
}

impl Default for MockTransport {
    fn default() -> (t: Self)
        ensures
            !t.config().fail_on_connect && !t.config().fail_on_write && !t.config().starts_connected,
            !t.connected(),
            t.written() == Seq::<u8>::empty(),
            t.read_data() == Seq::<u8>::empty(),
    {
        Self::new()
    }
}

impl Transport for MockTransport {
    /// Connects unless configured to fail.
    fn connect(&mut self) -> (r: Result<()>)
        ensures
            final(self).config() == old(self).config(),
            final(self).written() == old(self).written(),
            final(self).read_data() == old(self).read_data(),
            old(self).config().fail_on_connect ==> final(self).connected() == old(self).connected()
                && (r matches Err(PrinterError::ConnectionFailed(m)) && m@
                == "Simulated connection failure (MockTransport)"@),
            !old(self).config().fail_on_connect ==> final(self).connected() && r is Ok,
    {
        if self.config.fail_on_connect {
            return Err(
                PrinterError::ConnectionFailed(String::from_str("Simulated connection failure (MockTransport)")),
            );
        }
        self.connected = true;
        Ok(())
    }

    /// Captures `data` when connected and not configured to fail.
    fn write(&mut self, data: &[u8]) -> (r: Result<()>)
        ensures
            final(self).config() == old(self).config(),
            final(self).connected() == old(self).connected(),
            final(self).read_data() == old(self).read_data(),
            !old(self).connected() ==> final(self).written() == old(self).written() && (r matches Err(
                PrinterError::TransportUnavailable(m),
            ) && m@ == "MockTransport: write attempted without active connection"@),
            old(self).connected() && old(self).config().fail_on_write ==> final(self).written()
                == old(self).written() && (r matches Err(PrinterError::ConnectionFailed(m)) && m@
                == "Simulated write failure (MockTransport)"@),
            old(self).connected() && !old(self).config().fail_on_write ==> r is Ok && final(self).written()
                == old(self).written() + data@,
    {
        if !self.connected {
            return Err(
                PrinterError::TransportUnavailable(
                    String::from_str("MockTransport: write attempted without active connection"),
                ),
            );
        }
        if self.config.fail_on_write {
            return Err(PrinterError::ConnectionFailed(String::from_str("Simulated write failure (MockTransport)")));
        }
        self.buffer.extend_from_slice(data);
        Ok(())
    }

    /// Copies as much of the preset data as fits at the front of `buf`.
    fn read(&mut self, buf: &mut [u8]) -> (r: Result<usize>)
        ensures
            final(self).config() == old(self).config(),
            final(self).connected() == old(self).connected(),
            final(self).written() == old(self).written(),
            final(self).read_data() == old(self).read_data(),
            ({
                let n = if old(buf)@.len() < old(self).read_data().len() {
                    old(buf)@.len()
                } else {
                    old(self).read_data().len()
                };
                &&& r == Ok::<usize, PrinterError>(n as usize)
                &&& final(buf)@ == old(self).read_data().take(n as int) + old(buf)@.skip(n as int)
            }),
    {
        let n = if buf.len() < self.read_data.len() {
            buf.len()
        } else {
            self.read_data.len()
        };
        for i in 0..n
            invariant
                n <= buf@.len(),
                n <= self.read_data@.len(),
                buf@.len() == old(buf)@.len(),
                forall|j: int| 0 <= j < i ==> buf@[j] == self.read_data@[j],
                forall|j: int| i <= j < buf@.len() ==> buf@[j] == old(buf)@[j],
        {
            buf[i] = self.read_data[i];
        }
        assert(buf@ =~= self.read_data@.take(n as int) + old(buf)@.skip(n as int));
        Ok(n)
    }

    fn disconnect(&mut self) -> (r: Result<()>)
        ensures
            r is Ok,
            !final(self).connected(),
            final(self).config() == old(self).config(),
            final(self).written() == old(self).written(),
            final(self).read_data() == old(self).read_data(),
    {
        self.connected = false;
        Ok(())
    }

    fn is_connected(&self) -> (r: bool)
        ensures
            r == self.connected(),
    {
        self.connected
    }

    fn transport_name(&self) -> (r: &'static str)
        ensures
            r@ == "Mock"@,
    {
        "Mock"
    }
}

} // verus!
