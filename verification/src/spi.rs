//! The bus transaction engine as the guest sees it: devices are opened by
//! name, used through a handle, and dropped.
//!
//! Every call that touches the wire is handed back as a [`Step`]: the caller
//! carries the commands out and feeds the replies to the [`Envelope`], which
//! keeps the chip-select line paired on every path.
//!
//! [`Envelope`]: crate::bus::Envelope

use vstd::prelude::*;
use wasmtime::component::ResourceTable;
use crate::bus::{CommandView, Envelope, Step, StepView, opening};
use crate::table::{ActiveSpiDriver, table_delete, table_entries, table_get, table_limit, table_new, table_push};
use crate::wire::{Config, Error, ErrorView, Operation, OperationResult, OperationResultView, OperationView, not_found, outcome_view};

verus! {

/// The one bus device there is.
pub open spec fn device_name() -> Seq<char> {
    "spi0"@
}

/// The most devices that can be open at one time.
pub open spec fn max_open_devices() -> nat {
    1_000_000
}

/// What the engine of the shared bus owns besides the wire itself: the table
/// of open devices and the configuration asked for last.
pub struct SpiCtx {
    table: ResourceTable,
    config: Option<Config>,
}

impl SpiCtx {
    #[verifier::type_invariant]
    spec fn inv(self) -> bool {
        &&& table_entries(self.table).dom().finite()
        &&& table_limit(self.table) == max_open_devices()
        &&& forall|handle: u32| #[trigger]
            table_entries(self.table).contains_key(handle) ==> table_entries(
                self.table,
            )[handle] is Some
    }

    /// The open devices: each live handle with the id of its driver.
    pub closed spec fn handles(&self) -> Map<u32, u8> {
        Map::new(
            |handle: u32| table_entries(self.table).contains_key(handle),
            |handle: u32| table_entries(self.table)[handle].unwrap(),
        )
    }

    /// The configuration that the bus was last asked to use.
    pub closed spec fn configured(&self) -> Option<Config> {
        self.config
    }

    /// An engine with no device open and nothing configured.
    pub fn new() -> (ctx: SpiCtx)
        ensures
            ctx.handles() == Map::<u32, u8>::empty(),
            ctx.configured() is None,
    {
        let ctx = SpiCtx { table: table_new(), config: None };
        assert(ctx.handles() =~= Map::<u32, u8>::empty());
        ctx
    }

    /// Whether `handle` stands for an open device.
    pub fn is_open(&self, handle: u32) -> (open: bool)
        ensures
            open == self.handles().contains_key(handle),
            self.handles().dom().finite(),
    {
        proof {
            use_type_invariant(self);
            assert(self.handles().dom() =~= table_entries(self.table).dom());
        }
        table_get(&self.table, handle).is_some()
    }

    /// The configuration that the bus was last asked to use.
    pub fn config(&self) -> (config: Option<Config>)
        ensures
            config == self.configured(),
    {
        self.config
    }

    fn open(&mut self) -> (opened: Result<u32, Error>)
        ensures
            final(self).configured() == old(self).configured(),
            old(self).handles().dom().finite(),
            match opened {
                Ok(handle) => {
                    &&& !old(self).handles().contains_key(handle)
                    &&& final(self).handles() == old(self).handles().insert(handle, 0)
                },
                Err(e) => {
                    &&& final(self).handles() == old(self).handles()
                    &&& e@ == ErrorView::Other("resource table has no free keys"@)
                    &&& old(self).handles().len() >= max_open_devices()
                },
            },
    {
        proof {
            use_type_invariant(&*self);
            assert(self.handles().dom() =~= table_entries(self.table).dom());
        }
        match table_push(&mut self.table, ActiveSpiDriver { id: 0 }) {
            Ok(handle) => {
                assert(final(self).handles() =~= old(self).handles().insert(handle, 0));
                Ok(handle)
            },
            Err(text) => {
                assert(final(self).handles() =~= old(self).handles());
                Err(Error::Other(text))
            },
        }
    }

    fn close(&mut self, handle: u32) -> (closed: bool)
        ensures
            final(self).configured() == old(self).configured(),
            closed == old(self).handles().contains_key(handle),
            final(self).handles() == old(self).handles().remove(handle),
    {
        proof {
            use_type_invariant(&*self);
        }
        let removed = table_delete(&mut self.table, handle);
        assert(final(self).handles() =~= old(self).handles().remove(handle));
        removed.is_some()
    }

    fn set_config(&mut self, config: Config)
        ensures
            final(self).configured() == Some(config),
            final(self).handles() == old(self).handles(),
    {
        proof {
            use_type_invariant(&*self);
        }
        self.config = Some(config);
    }
}

/// A host state that holds the engine of the shared bus.
pub trait SpiView {
    /// The engine held.
    spec fn spi_state(&self) -> SpiCtx;

    /// The engine held, for the length of one capability call.
    fn spi_ctx(&mut self) -> (ctx: &mut SpiCtx)
        ensures
            *ctx == old(self).spi_state(),
            final(self).spi_state() == *final(ctx),
    ;
}

/// The bus capability, bound to a host state for one call.
pub struct SpiImpl<'a, T> {
    pub host: &'a mut T,
}

impl<'a, T: SpiView> SpiImpl<'a, T> {
    /// The open devices of the host's engine.
    pub open spec fn handles(&self) -> Map<u32, u8> {
        self.host.spi_state().handles()
    }

    /// The configuration that the host's engine was last asked to use.
    pub open spec fn configured(&self) -> Option<Config> {
        self.host.spi_state().configured()
    }

    /// The names under which a bus device can be opened.
    pub fn get_device_names(&mut self) -> (names: Vec<String>)
        ensures
            *final(final(self).host) == *final(old(self).host),
            names@.len() == 1,
            names@[0]@ == device_name(),
            final(self).host.spi_state() == old(self).host.spi_state(),
    {
        let mut names: Vec<String> = Vec::new();
        names.push("spi0".to_owned());
        names
    }

    /// Opens the bus device of that name and returns a fresh handle to it.
    ///
    /// Only `"spi0"` names a device. Any number of handles may be open at one
    /// time, up to the limit of the table; each stands for the same physical
    /// bus.
    pub fn open_device(&mut self, name: String) -> (opened: Result<u32, Error>)
        ensures
            *final(final(self).host) == *final(old(self).host),
            final(self).configured() == old(self).configured(),
            name@ != device_name() ==> not_found(opened) && final(self).handles() == old(self).handles(),
            name@ == device_name() ==> match opened {
                Ok(handle) => {
                    &&& !old(self).handles().contains_key(handle)
                    &&& final(self).handles() == opened_with(
                        old(self).handles(),
                        handle,
                    )
                },
                Err(e) => {
                    &&& e@ == ErrorView::Other("resource table has no free keys"@)
                    &&& old(self).handles().len() >= max_open_devices()
                    &&& final(self).handles() == old(self).handles()
                },
            },
    {
        let wanted = "spi0".to_owned();
        if name == wanted {
            self.host.spi_ctx().open()
        } else {
            Err(Error::NotFound)
        }
    }

    /// Takes the configuration that the guest asks for on an open device.
    /// There is one bus, so there is one configuration: every call that
    /// starts after this one selects the device under it, through whichever
    /// handle, until another is asked for.
    pub fn configure(&mut self, handle: u32, config: Config) -> (done: Result<(), Error>)
        ensures
            *final(final(self).host) == *final(old(self).host),
            final(self).handles() == old(self).handles(),
            old(self).handles().contains_key(handle) ==> done is Ok && final(self).configured() == Some(config),
            !old(self).handles().contains_key(handle) ==> not_found(done) && final(self).configured() == old(self).configured(),
    {
        let ctx = self.host.spi_ctx();
        if ctx.is_open(handle) {
            ctx.set_config(config);
            Ok(())
        } else {
            Err(Error::NotFound)
        }
    }

    /// Starts a call on an open device: the first step selects the device.
    /// A handle that is not open ends the call at once, and nothing goes out
    /// on the wire.
    fn begin(&mut self, handle: u32, single: bool, operations: Vec<Operation>) -> (step: Step)
        ensures
            *final(final(self).host) == *final(old(self).host),
            final(self).host.spi_state() == old(self).host.spi_state(),
            step@ == begun(
                old(self).handles(),
                old(self).configured(),
                handle,
                single,
                operations.deep_view(),
            ),
            step matches Step::Issue { envelope, .. } ==> envelope@.wf(),
    {
        let ctx = self.host.spi_ctx();
        if ctx.is_open(handle) {
            Envelope::open(single, ctx.config(), operations)
        } else {
            Step::Finished(Err(Error::NotFound))
        }
    }

    /// Reads `len` bytes from an open device, inside one chip-select
    /// envelope. The call ends with one `Read` result of exactly `len` bytes,
    /// or with the error `"Read failed"`.
    pub fn read(&mut self, handle: u32, len: u64) -> (step: Step)
        ensures
            *final(final(self).host) == *final(old(self).host),
            final(self).host.spi_state() == old(self).host.spi_state(),
            step@ == begun(
                old(self).handles(),
                old(self).configured(),
                handle,
                true,
                seq![OperationView::Read(len)],
            ),
            step matches Step::Issue { envelope, .. } ==> envelope@.wf(),
    {
        let mut operations: Vec<Operation> = Vec::new();
        operations.push(Operation::Read(len));
        assert(operations.deep_view() =~= seq![OperationView::Read(len)]);
        self.begin(handle, true, operations)
    }

    /// Writes `data` to an open device, inside one chip-select envelope. The
    /// call ends with one `Write` result, or with the error `"Write failed"`.
    pub fn write(&mut self, handle: u32, data: Vec<u8>) -> (step: Step)
        ensures
            *final(final(self).host) == *final(old(self).host),
            final(self).host.spi_state() == old(self).host.spi_state(),
            step@ == begun(
                old(self).handles(),
                old(self).configured(),
                handle,
                true,
                seq![OperationView::Write(data@)],
            ),
            step matches Step::Issue { envelope, .. } ==> envelope@.wf(),
    {
        let mut operations: Vec<Operation> = Vec::new();
        operations.push(Operation::Write(data));
        assert(operations.deep_view() =~= seq![OperationView::Write(data@)]);
        self.begin(handle, true, operations)
    }

    /// Exchanges `data` with an open device, inside one chip-select envelope.
    /// The call ends with one `Transfer` result as long as `data`, or with
    /// the error `"Transfer failed"`.
    pub fn transfer(&mut self, handle: u32, data: Vec<u8>) -> (step: Step)
        ensures
            *final(final(self).host) == *final(old(self).host),
            final(self).host.spi_state() == old(self).host.spi_state(),
            step@ == begun(
                old(self).handles(),
                old(self).configured(),
                handle,
                true,
                seq![OperationView::Transfer(data@)],
            ),
            step matches Step::Issue { envelope, .. } ==> envelope@.wf(),
    {
        let mut operations: Vec<Operation> = Vec::new();
        operations.push(Operation::Transfer(data));
        assert(operations.deep_view() =~= seq![OperationView::Transfer(data@)]);
        self.begin(handle, true, operations)
    }

    /// Carries out `operations` in order on an open device with the device
    /// selected once for all of them. The call ends with one result for each
    /// operation, or, after the release of the device, with the error of the
    /// first operation that failed: `"Read error"`, `"Write error"` or
    /// `"Transfer error"`.
    pub fn transaction(&mut self, handle: u32, operations: Vec<Operation>) -> (step: Step)
        ensures
            *final(final(self).host) == *final(old(self).host),
            final(self).host.spi_state() == old(self).host.spi_state(),
            step@ == begun(
                old(self).handles(),
                old(self).configured(),
                handle,
                false,
                operations.deep_view(),
            ),
            step matches Step::Issue { envelope, .. } ==> envelope@.wf(),
    {
        self.begin(handle, false, operations)
    }

    /// Closes an open device. Its handle is free for reuse and stands for
    /// nothing until an `open_device` hands it out again.
    pub fn drop(&mut self, handle: u32) -> (dropped: Result<(), Error>)
        ensures
            *final(final(self).host) == *final(old(self).host),
            final(self).configured() == old(self).configured(),
            final(self).handles() == dropped_from(
                old(self).handles(),
                handle,
            ),
            old(self).handles().contains_key(handle) ==> dropped is Ok,
            !old(self).handles().contains_key(handle) ==> not_found(dropped),
    {
        if self.host.spi_ctx().close(handle) {
            Ok(())
        } else {
            Err(Error::NotFound)
        }
    }
}

/// The open devices after `handle` was handed out.
pub open spec fn opened_with(handles: Map<u32, u8>, handle: u32) -> Map<u32, u8> {
    handles.insert(handle, 0)
}

/// The open devices after `handle` was dropped.
pub open spec fn dropped_from(handles: Map<u32, u8>, handle: u32) -> Map<u32, u8> {
    handles.remove(handle)
}

/// How a call on the device behind `handle` starts: under the
/// configuration that the bus was last asked to use, with the selection of
/// the device.
pub open spec fn begun(
    handles: Map<u32, u8>,
    configured: Option<Config>,
    handle: u32,
    single: bool,
    operations: Seq<OperationView>,
) -> StepView {
    if handles.contains_key(handle) {
        opening(single, configured, operations)
    } else {
        StepView::Finished(Err(ErrorView::NotFound))
    }
}

/// Opening a device and dropping it at once leaves the open devices as they
/// were.
pub proof fn lemma_open_then_drop_restores(handles: Map<u32, u8>, handle: u32)
    requires
        !handles.contains_key(handle),
    ensures
        dropped_from(opened_with(handles, handle), handle) == handles,
{
    assert(handles.insert(handle, 0).remove(handle) =~= handles);
}

/// A dropped handle stands for nothing: every call on it ends at once with
/// `NotFound`, and no command goes out on the wire.
pub proof fn lemma_dropped_handle_is_refused(
    handles: Map<u32, u8>,
    configured: Option<Config>,
    handle: u32,
    single: bool,
    operations: Seq<OperationView>,
)
    ensures
        !dropped_from(handles, handle).contains_key(handle),
        begun(dropped_from(handles, handle), configured, handle, single, operations)
            == StepView::Finished(Err(ErrorView::NotFound)),
{
}

/// A configuration that was asked for is the one under which the calls
/// after it select the device.
pub proof fn lemma_configured_calls_use_it(
    handles: Map<u32, u8>,
    config: Config,
    handle: u32,
    single: bool,
    operations: Seq<OperationView>,
)
    requires
        handles.contains_key(handle),
    ensures
        begun(handles, Some(config), handle, single, operations) matches StepView::Issue {
            envelope,
            command,
        } && command == CommandView::Select(Some(config)) && envelope.config == Some(config),
{
}

/// Dropping a handle leaves every other open device as it was.
pub proof fn lemma_drop_keeps_others(handles: Map<u32, u8>, handle: u32, other: u32)
    requires
        other != handle,
    ensures
        dropped_from(handles, handle).contains_key(other) == handles.contains_key(other),
        handles.contains_key(other) ==> dropped_from(handles, handle)[other] == handles[other],
{
}

/// The bytes that a finished `read` or `transfer` call brought: those of its
/// one result. An error stays as it is.
pub open spec fn bytes_of(outcome: Result<Seq<OperationResultView>, ErrorView>) -> Result<
    Seq<u8>,
    ErrorView,
> {
    match outcome {
        Ok(results) => if results.len() == 1 && results[0] is Read {
            Ok(results[0]->Read_0)
        } else if results.len() == 1 && results[0] is Transfer {
            Ok(results[0]->Transfer_0)
        } else {
            Err(ErrorView::Other("Transfer failed"@))
        },
        Err(e) => Err(e),
    }
}

/// Takes the bytes out of the outcome of a finished `read` or `transfer`
/// call.
pub fn into_bytes(outcome: Result<Vec<OperationResult>, Error>) -> (bytes: Result<Vec<u8>, Error>)
    ensures
        match bytes {
            Ok(data) => bytes_of(outcome_view(outcome)) == Ok::<Seq<u8>, ErrorView>(data@),
            Err(e) => bytes_of(outcome_view(outcome)) == Err::<Seq<u8>, ErrorView>(e@),
        },
{
    match outcome {
        Ok(mut results) => {
            let ghost before = results.deep_view();
            if results.len() == 1 {
                match results.pop() {
                    Some(OperationResult::Read(data)) => {
                        assert(before[0] == OperationResultView::Read(data@));
                        Ok(data)
                    },
                    Some(OperationResult::Transfer(data)) => {
                        assert(before[0] == OperationResultView::Transfer(data@));
                        Ok(data)
                    },
                    Some(other) => {
                        assert(before[0] == other@);
                        Err(Error::other("Transfer failed"))
                    },
                    None => Err(Error::other("Transfer failed")),
                }
            } else {
                Err(Error::other("Transfer failed"))
            }
        },
        Err(e) => Err(e),
    }
}

} // verus!
