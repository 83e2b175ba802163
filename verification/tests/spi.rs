use pico_wasm_host::bus::{BusCommand, BusReply, Envelope, Step};
use pico_wasm_host::gpio::GpioCtx;
use pico_wasm_host::host::HostState;
use pico_wasm_host::spi::{into_bytes, SpiImpl};
use pico_wasm_host::wire::{Config, Error, Mode, Operation, OperationResult};

/// A bus on the bench: it records what goes over the wire, answers reads
/// with a counting pattern, and can be told to fail the n-th sub-operation.
struct Bench {
    wire: Vec<BusCommand>,
    selected: bool,
    activations: usize,
    releases: usize,
    performed: usize,
    fail_at: Option<usize>,
}

impl Bench {
    fn new() -> Bench {
        Bench { wire: Vec::new(), selected: false, activations: 0, releases: 0, performed: 0, fail_at: None }
    }

    fn failing_at(k: usize) -> Bench {
        let mut bench = Bench::new();
        bench.fail_at = Some(k);
        bench
    }

    fn perform(&mut self, command: &BusCommand) -> BusReply {
        self.wire.push(match command {
            BusCommand::Select(config) => BusCommand::Select(*config),
            BusCommand::Perform(op) => BusCommand::Perform(op.duplicate()),
            BusCommand::Deselect => BusCommand::Deselect,
        });
        match command {
            BusCommand::Select(_) => {
                assert!(!self.selected, "selected twice");
                self.selected = true;
                self.activations += 1;
                BusReply::Done
            }
            BusCommand::Deselect => {
                assert!(self.selected, "released while idle");
                self.selected = false;
                self.releases += 1;
                BusReply::Done
            }
            BusCommand::Perform(op) => {
                assert!(self.selected, "operation on an idle line");
                let index = self.performed;
                self.performed += 1;
                if self.fail_at == Some(index) {
                    return BusReply::Failed;
                }
                match op {
                    Operation::Read(len) => BusReply::Data((0..*len).map(|i| 0xA0 + i as u8).collect()),
                    Operation::Write(_) => BusReply::Done,
                    Operation::Transfer(data) => BusReply::Data(data.iter().map(|b| !b).collect()),
                    Operation::DelayNs(_) => BusReply::Done,
                }
            }
        }
    }

    fn drive(&mut self, first: Step) -> Result<Vec<OperationResult>, Error> {
        let mut step = first;
        loop {
            match step {
                Step::Issue { envelope, command } => {
                    let reply = self.perform(&command);
                    step = envelope.advance(reply);
                }
                Step::Finished(outcome) => return outcome,
            }
        }
    }
}

fn host() -> HostState {
    HostState::new(GpioCtx::new())
}

#[test]
fn device_names_are_the_one_bus() {
    let mut h = host();
    let names = SpiImpl { host: &mut h }.get_device_names();
    assert_eq!(names, vec!["spi0".to_string()]);
}

#[test]
fn open_unknown_device_is_not_found() {
    let mut h = host();
    let r = SpiImpl { host: &mut h }.open_device("spi1".to_string());
    assert_eq!(r, Err(Error::NotFound));
    assert!(!h.spi_ctx.is_open(0));
}

#[test]
fn transaction_writes_then_reads_inside_one_envelope() {
    let mut h = host();
    let handle = SpiImpl { host: &mut h }.open_device("spi0".to_string()).unwrap();
    let ops = vec![Operation::Write(vec![0x21]), Operation::Write(vec![0, 127]), Operation::Read(2)];
    let first = SpiImpl { host: &mut h }.transaction(handle, ops);
    let mut bench = Bench::new();
    let results = bench.drive(first).unwrap();
    assert_eq!(
        results,
        vec![OperationResult::Write, OperationResult::Write, OperationResult::Read(vec![0xA0, 0xA1])]
    );
    assert_eq!(
        bench.wire,
        vec![
            BusCommand::Select(None),
            BusCommand::Perform(Operation::Write(vec![0x21])),
            BusCommand::Perform(Operation::Write(vec![0, 127])),
            BusCommand::Perform(Operation::Read(2)),
            BusCommand::Deselect,
        ]
    );
    assert_eq!((bench.activations, bench.releases), (1, 1));
    assert!(!bench.selected);
}

#[test]
fn empty_transaction_still_pairs_the_line() {
    let mut h = host();
    let handle = SpiImpl { host: &mut h }.open_device("spi0".to_string()).unwrap();
    let first = SpiImpl { host: &mut h }.transaction(handle, Vec::new());
    let mut bench = Bench::new();
    assert_eq!(bench.drive(first), Ok(Vec::new()));
    assert_eq!(bench.wire, vec![BusCommand::Select(None), BusCommand::Deselect]);
}

#[test]
fn transaction_failure_releases_and_reports_the_failing_step() {
    let texts = ["Read error", "Write error", "Transfer error"];
    for k in 0..3 {
        let mut h = host();
        let handle = SpiImpl { host: &mut h }.open_device("spi0".to_string()).unwrap();
        let ops = vec![Operation::Read(1), Operation::Write(vec![7]), Operation::Transfer(vec![1, 2])];
        let first = SpiImpl { host: &mut h }.transaction(handle, ops);
        let mut bench = Bench::failing_at(k);
        let outcome = bench.drive(first);
        assert_eq!(outcome, Err(Error::Other(texts[k].to_string())));
        assert_eq!((bench.activations, bench.releases), (1, 1));
        assert!(!bench.selected);
        // nothing goes out after the failing step but the release
        assert_eq!(bench.wire.len(), k + 3);
        assert_eq!(bench.wire.last(), Some(&BusCommand::Deselect));
    }
}

#[test]
fn delay_inside_a_transaction_cannot_fail() {
    let mut h = host();
    let handle = SpiImpl { host: &mut h }.open_device("spi0".to_string()).unwrap();
    let first = SpiImpl { host: &mut h }.transaction(handle, vec![Operation::DelayNs(500), Operation::Write(vec![1])]);
    let mut bench = Bench::failing_at(0);
    assert_eq!(bench.drive(first), Ok(vec![OperationResult::Delay, OperationResult::Write]));
}

#[test]
fn single_read_write_transfer_each_toggle_once() {
    let mut h = host();
    let handle = SpiImpl { host: &mut h }.open_device("spi0".to_string()).unwrap();

    let mut bench = Bench::new();
    let first = SpiImpl { host: &mut h }.read(handle, 3);
    assert_eq!(into_bytes(bench.drive(first)), Ok(vec![0xA0, 0xA1, 0xA2]));
    assert_eq!((bench.activations, bench.releases), (1, 1));

    let mut bench = Bench::new();
    let first = SpiImpl { host: &mut h }.write(handle, vec![9, 8]);
    assert_eq!(bench.drive(first), Ok(vec![OperationResult::Write]));
    assert_eq!(bench.wire[1], BusCommand::Perform(Operation::Write(vec![9, 8])));
    assert_eq!((bench.activations, bench.releases), (1, 1));

    let mut bench = Bench::new();
    let first = SpiImpl { host: &mut h }.transfer(handle, vec![0x0F, 0xF0]);
    assert_eq!(into_bytes(bench.drive(first)), Ok(vec![0xF0, 0x0F]));
    assert_eq!((bench.activations, bench.releases), (1, 1));
}

#[test]
fn single_call_failures_have_their_own_wording() {
    let mut h = host();
    let handle = SpiImpl { host: &mut h }.open_device("spi0".to_string()).unwrap();

    let first = SpiImpl { host: &mut h }.read(handle, 3);
    let mut bench = Bench::failing_at(0);
    assert_eq!(bench.drive(first), Err(Error::Other("Read failed".to_string())));
    assert_eq!((bench.activations, bench.releases), (1, 1));

    let first = SpiImpl { host: &mut h }.write(handle, vec![1]);
    assert_eq!(Bench::failing_at(0).drive(first), Err(Error::Other("Write failed".to_string())));

    let first = SpiImpl { host: &mut h }.transfer(handle, vec![1]);
    assert_eq!(Bench::failing_at(0).drive(first), Err(Error::Other("Transfer failed".to_string())));
}

#[test]
fn short_read_counts_as_failure() {
    let step = Envelope::open(true, None, vec![Operation::Read(4)]);
    let Step::Issue { envelope, command } = step else { panic!("no select") };
    assert_eq!(command, BusCommand::Select(None));
    let Step::Issue { envelope, command } = envelope.advance(BusReply::Done) else { panic!("no read") };
    assert_eq!(command, BusCommand::Perform(Operation::Read(4)));
    let Step::Issue { envelope, command } = envelope.advance(BusReply::Data(vec![1, 2, 3])) else {
        panic!("no release")
    };
    assert_eq!(command, BusCommand::Deselect);
    let Step::Finished(outcome) = envelope.advance(BusReply::Done) else { panic!("not finished") };
    assert_eq!(outcome, Err(Error::Other("Read failed".to_string())));
}

#[test]
fn open_then_drop_restores_the_table() {
    let mut h = host();
    let kept = SpiImpl { host: &mut h }.open_device("spi0".to_string()).unwrap();
    let handle = SpiImpl { host: &mut h }.open_device("spi0".to_string()).unwrap();
    assert_ne!(kept, handle);
    assert!(h.spi_ctx.is_open(handle));
    assert_eq!(SpiImpl { host: &mut h }.drop(handle), Ok(()));
    assert!(!h.spi_ctx.is_open(handle));
    assert!(h.spi_ctx.is_open(kept));
    // the id is free again
    let again = SpiImpl { host: &mut h }.open_device("spi0".to_string()).unwrap();
    assert_eq!(again, handle);
}

#[test]
fn dropped_handle_is_refused_everywhere() {
    let mut h = host();
    let handle = SpiImpl { host: &mut h }.open_device("spi0".to_string()).unwrap();
    assert_eq!(SpiImpl { host: &mut h }.drop(handle), Ok(()));
    assert_eq!(SpiImpl { host: &mut h }.drop(handle), Err(Error::NotFound));

    let mut bench = Bench::new();
    let first = SpiImpl { host: &mut h }.read(handle, 1);
    assert_eq!(bench.drive(first), Err(Error::NotFound));
    let first = SpiImpl { host: &mut h }.write(handle, vec![1]);
    assert_eq!(bench.drive(first), Err(Error::NotFound));
    let first = SpiImpl { host: &mut h }.transfer(handle, vec![1]);
    assert_eq!(bench.drive(first), Err(Error::NotFound));
    let first = SpiImpl { host: &mut h }.transaction(handle, vec![Operation::Read(1)]);
    assert_eq!(bench.drive(first), Err(Error::NotFound));
    // nothing went out on the wire
    assert!(bench.wire.is_empty());

    let config = Config { frequency: 1_000_000, mode: Mode::Mode0, lsb_first: false };
    assert_eq!(SpiImpl { host: &mut h }.configure(handle, config), Err(Error::NotFound));
    assert_eq!(h.spi_ctx.config(), None);
}

#[test]
fn configure_is_recorded_for_an_open_device() {
    let mut h = host();
    let handle = SpiImpl { host: &mut h }.open_device("spi0".to_string()).unwrap();
    let config = Config { frequency: 8_000_000, mode: Mode::Mode3, lsb_first: true };
    assert_eq!(SpiImpl { host: &mut h }.configure(handle, config), Ok(()));
    assert_eq!(h.spi_ctx.config(), Some(config));
}

#[test]
fn calls_select_under_the_configuration_asked_for_last() {
    let mut h = host();
    let a = SpiImpl { host: &mut h }.open_device("spi0".to_string()).unwrap();
    let b = SpiImpl { host: &mut h }.open_device("spi0".to_string()).unwrap();
    let slow = Config { frequency: 1_000_000, mode: Mode::Mode0, lsb_first: false };
    let fast = Config { frequency: 8_000_000, mode: Mode::Mode3, lsb_first: false };

    let mut bench = Bench::new();
    let first = SpiImpl { host: &mut h }.write(a, vec![1]);
    bench.drive(first).unwrap();
    assert_eq!(bench.wire[0], BusCommand::Select(None));

    assert_eq!(SpiImpl { host: &mut h }.configure(a, slow), Ok(()));
    let mut bench = Bench::new();
    let first = SpiImpl { host: &mut h }.transaction(a, vec![Operation::Read(1)]);
    bench.drive(first).unwrap();
    assert_eq!(bench.wire[0], BusCommand::Select(Some(slow)));

    assert_eq!(SpiImpl { host: &mut h }.configure(b, fast), Ok(()));
    let mut bench = Bench::new();
    let first = SpiImpl { host: &mut h }.read(a, 1);
    bench.drive(first).unwrap();
    assert_eq!(bench.wire[0], BusCommand::Select(Some(fast)));

    assert!(!Mode::Mode0.idle_high() && !Mode::Mode0.capture_on_second());
    assert!(!Mode::Mode1.idle_high() && Mode::Mode1.capture_on_second());
    assert!(Mode::Mode2.idle_high() && !Mode::Mode2.capture_on_second());
    assert!(Mode::Mode3.idle_high() && Mode::Mode3.capture_on_second());
}

#[test]
fn handles_are_distinct_while_live() {
    let mut h = host();
    let mut seen = Vec::new();
    for _ in 0..16 {
        let handle = SpiImpl { host: &mut h }.open_device("spi0".to_string()).unwrap();
        assert!(!seen.contains(&handle));
        seen.push(handle);
    }
    for handle in seen {
        assert!(h.spi_ctx.is_open(handle));
    }
}

#[test]
fn into_bytes_refuses_other_shapes() {
    assert_eq!(into_bytes(Ok(vec![OperationResult::Write])), Err(Error::Other("Transfer failed".to_string())));
    assert_eq!(into_bytes(Ok(Vec::new())), Err(Error::Other("Transfer failed".to_string())));
    assert_eq!(into_bytes(Err(Error::NotFound)), Err(Error::NotFound));
    assert_eq!(Error::NotFound.message(), "Device not found");
    assert_eq!(Error::other("x").message(), "x");
}

#[test]
fn full_table_refuses_until_a_handle_is_dropped() {
    let mut h = host();
    let mut last = 0;
    for _ in 0..1_000_000 {
        last = SpiImpl { host: &mut h }.open_device("spi0".to_string()).unwrap();
    }
    let refused = SpiImpl { host: &mut h }.open_device("spi0".to_string());
    assert_eq!(refused, Err(Error::Other("resource table has no free keys".to_string())));
    assert!(h.spi_ctx.is_open(last));
    assert_eq!(SpiImpl { host: &mut h }.drop(last), Ok(()));
    assert_eq!(SpiImpl { host: &mut h }.open_device("spi0".to_string()), Ok(last));
}
