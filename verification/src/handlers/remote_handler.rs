use vstd::prelude::*;

verus! {

/// Failures of the remote sink.
#[derive(Debug)]
pub enum RemoteHandlerError {
    ConnectionError(String),
    SendError(String),
}

/// The linear backoff after `failures` failed attempts: one hundred
/// milliseconds per failure so far, saturating instead of overflowing.
pub open spec fn backoff_spec(failures: nat) -> u64 {
    if 100 * failures <= u64::MAX {
        (100 * failures) as u64
    } else {
        u64::MAX
    }
}

/// Retry policy for delivery to a centralized endpoint: a fresh connection
/// per attempt, linear backoff between attempts, a bounded budget. The
/// connections themselves are opened outside; this state answers, after each
/// failure, how long to back off and whether the budget is spent.
pub struct RemoteHandler {
    address: String,
    port: u16,
    retries: usize,
}

impl RemoteHandler {
    /// The configured host.
    pub closed spec fn address_spec(self) -> Seq<char> {
        self.address@
    }

    /// The configured port.
    pub closed spec fn port_spec(self) -> u16 {
        self.port
    }

    /// The attempt budget.
    pub closed spec fn retries_spec(self) -> nat {
        self.retries as nat
    }

    /// Builds a remote sink; an unspecified budget defaults to three.
    pub fn new(address: String, port: u16, retries: Option<usize>) -> (r: RemoteHandler)
        ensures
            r.address_spec() == address@,
            r.port_spec() == port,
            r.retries_spec() == (match retries {
                Some(n) => n as nat,
                None => 3nat,
            }),
    {
        let n: usize = match retries {
            Some(n) => n,
            None => 3,
        };
        RemoteHandler { address, port, retries: n }
    }

    /// The configured host, for the connection opener.
    pub fn address(&self) -> (r: &String)
        ensures
            r@ == self.address_spec(),
    {
        &self.address
    }

    /// The configured port, for the connection opener.
    pub fn port(&self) -> (r: u16)
        ensures
            r == self.port_spec(),
    {
        self.port
    }

    /// The attempt budget.
    pub fn retries(&self) -> (r: usize)
        ensures
            r == self.retries_spec(),
    {
        self.retries
    }

    /// How long to back off after the given number of failed attempts.
    pub fn backoff_after(&self, failures: usize) -> (r: u64)
        ensures
            r == backoff_spec(failures as nat),
    {
        let f = failures as u64;
        if f <= u64::MAX / 100 {
            100 * f
        } else {
            u64::MAX
        }
    }

    /// Whether the budget is spent after the given number of failed
    /// attempts: then the send fails for good, as a send error.
    pub fn give_up_after(&self, failures: usize) -> (r: bool)
        ensures
            r == (failures as nat >= self.retries_spec()),
    {
        failures >= self.retries
    }

    /// The error a spent budget yields.
    pub fn exhausted_error(&self) -> (r: RemoteHandlerError)
        ensures
            r is SendError,
    {
        RemoteHandlerError::SendError(String::from_str("Max retries exceeded"))
    }
}

/// With the default budget of three and an endpoint that never accepts, the
/// send makes exactly three attempts, backs off one hundred, two hundred and
/// three hundred milliseconds — strictly increasing — and then gives up.
pub proof fn lemma_retry_budget_three()
    ensures
        backoff_spec(1) == 100,
        backoff_spec(2) == 200,
        backoff_spec(3) == 300,
        backoff_spec(1) < backoff_spec(2) < backoff_spec(3),
{
}

/// Backoff grows strictly with each further failure, as long as it has not
/// saturated.
pub proof fn lemma_backoff_increasing(a: nat, b: nat)
    requires
        a < b,
        100 * b <= u64::MAX,
    ensures
        backoff_spec(a) < backoff_spec(b),
{
}

} // verus!
