//! The connection lifecycle of a scale and the per-channel attribution of
//! faults. The scale is generic over its channel handle `C` and over the
//! scalar `W` of its calibration; the driver's operations (bind, open,
//! configure, read) are handed in as functions, and each of them reports a
//! fault as the driver's numeric return code.

use vstd::prelude::*;

verus! {

/// How many load-cell channels a scale reads.
pub const NUMBER_OF_INPUTS: usize = 4;

/// A device fault, attributed to the load cell whose channel reported it.
#[derive(Debug, Clone, Copy, PartialEq, Eq, Structural)]
pub struct PhidgetError {
    /// The driver's numeric return code.
    pub return_code: u32,
    /// Index of the faulting channel.
    pub load_cell: usize,
}

impl PhidgetError {
    pub fn new(return_code: u32, load_cell: usize) -> (r: Self)
        ensures
            r.return_code == return_code,
            r.load_cell == load_cell,
    {
        Self { return_code, load_cell }
    }
}

/// Why a scale operation failed.
#[derive(Debug, Clone, Copy, PartialEq, Eq, Structural)]
pub enum ScaleError {
    /// The calibration is malformed (kept for callers that validate one).
    InvalidCoefficients,
    /// The device identifier cannot be bound.
    InvalidPhidgetId,
    /// A channel's hardware operation failed.
    PhidgetError(PhidgetError),
    /// A transport failure that belongs to no single channel.
    IoError,
}

impl ScaleError {
    pub fn phidget_error(return_code: u32, load_cell: usize) -> (r: Self)
        ensures
            r == ScaleError::PhidgetError(PhidgetError { return_code, load_cell }),
    {
        ScaleError::PhidgetError(PhidgetError::new(return_code, load_cell))
    }
}

/// What a read over every channel in index order may return: all readings, or
/// the fault of the first channel that failed, every channel before it having
/// answered.
pub open spec fn read_outcome<C, R, F: Fn(&C) -> Result<R, u32>>(
    read: F,
    channels: Seq<C>,
    r: Result<Vec<R>, ScaleError>,
) -> bool {
    match r {
        Ok(v) => v@.len() == channels.len() && forall|i: int|
            0 <= i < channels.len() ==> #[trigger] read.ensures((&channels[i],), Ok(v@[i])),
        Err(ScaleError::PhidgetError(e)) => {
            &&& e.load_cell < channels.len()
            &&& read.ensures((&channels[e.load_cell as int],), Err(e.return_code))
            &&& forall|j: int| 0 <= j < e.load_cell ==> answers(read, #[trigger] channels[j])
        },
        Err(_) => false,
    }
}

/// Some read of the channel returns a value.
pub open spec fn answers<C, R, F: Fn(&C) -> Result<R, u32>>(read: F, channel: C) -> bool {
    exists|x: R| read.ensures((&channel,), Ok(x))
}

/// No channel can answer a read with a fault.
pub open spec fn never_faults<C, R, F: Fn(&C) -> Result<R, u32>>(read: F, channels: Seq<C>) -> bool {
    forall|i: int, code: u32|
        0 <= i < channels.len() ==> !#[trigger] read.ensures((&channels[i],), Err::<R, u32>(code))
}

/// A read whose answer on a channel is fixed.
pub open spec fn deterministic<C, R, F: Fn(&C) -> Result<R, u32>>(read: F) -> bool {
    forall|c: C, x: Result<R, u32>, y: Result<R, u32>|
        #[trigger] read.ensures((&c,), x) && #[trigger] read.ensures((&c,), y) ==> x == y
}

/// The channel that a failed pass of reads names is the first that faults:
/// where each channel's answer is fixed, no channel before it can fault.
pub proof fn lemma_fault_is_first<C, R, F: Fn(&C) -> Result<R, u32>>(
    read: F,
    channels: Seq<C>,
    e: PhidgetError,
)
    requires
        deterministic(read),
        read_outcome(read, channels, Err(ScaleError::PhidgetError(e))),
    ensures
        forall|j: int, code: u32|
            0 <= j < e.load_cell ==> !#[trigger] read.ensures((&channels[j],), Err::<R, u32>(code)),
{
    assert forall|j: int, code: u32| 0 <= j < e.load_cell implies !#[trigger] read.ensures(
        (&channels[j],),
        Err::<R, u32>(code),
    ) by {
        assert(answers(read, channels[j]));
        let x = choose|x: R| read.ensures((&channels[j],), Ok(x));
        assert(read.ensures((&channels[j],), Ok::<R, u32>(x)));
    }
}

/// Reads every channel in index order; the first fault ends the pass.
fn read_each<C, R, F: Fn(&C) -> Result<R, u32>>(channels: &Vec<C>, read: &F) -> (r: Result<
    Vec<R>,
    ScaleError,
>)
    requires
        forall|c: &C| read.requires((c,)),
    ensures
        read_outcome(*read, channels@, r),
        never_faults(*read, channels@) ==> r is Ok,
{
    let mut out: Vec<R> = Vec::new();
    let mut i: usize = 0;
    while i < channels.len()
        invariant
            forall|c: &C| read.requires((c,)),
            i <= channels.len(),
            out@.len() == i,
            forall|k: int| 0 <= k < i ==> #[trigger] read.ensures((&channels@[k],), Ok(out@[k])),
        decreases channels.len() - i,
    {
        match read(&channels[i]) {
            Ok(x) => {
                out.push(x);
            },
            Err(code) => {
                assert forall|j: int| 0 <= j < i implies answers(*read, #[trigger] channels@[j]) by {
                    assert(read.ensures((&channels@[j],), Ok(out@[j])));
                }
                return Err(ScaleError::phidget_error(code, i));
            },
        }
        i = i + 1;
    }
    Ok(out)
}

/// What opening bound handles in channel order may return: one open channel
/// per handle, or the fault of the first channel that failed to open, every
/// channel before it having opened.
pub open spec fn open_outcome<H, C, O: Fn(H, usize) -> Result<C, u32>>(
    open: O,
    handles: Seq<H>,
    r: Result<Seq<C>, ScaleError>,
) -> bool {
    match r {
        Ok(v) => v.len() == handles.len() && forall|i: int|
            0 <= i < handles.len() ==> #[trigger] open.ensures((handles[i], i as usize), Ok(v[i])),
        Err(ScaleError::PhidgetError(e)) => {
            &&& e.load_cell < handles.len()
            &&& open.ensures((handles[e.load_cell as int], e.load_cell), Err(e.return_code))
            &&& forall|j: int| 0 <= j < e.load_cell ==> opens(open, #[trigger] handles[j], j as usize)
        },
        Err(_) => false,
    }
}

/// Some attempt to open the handle as the given channel succeeds.
pub open spec fn opens<H, C, O: Fn(H, usize) -> Result<C, u32>>(open: O, handle: H, channel: usize) -> bool {
    exists|c: C| open.ensures((handle, channel), Ok(c))
}

/// No handle fails to open on any channel of the scale.
pub open spec fn never_fails_to_open<H, C, O: Fn(H, usize) -> Result<C, u32>>(open: O) -> bool {
    forall|h: H, i: usize, code: u32|
        i < NUMBER_OF_INPUTS ==> !#[trigger] open.ensures((h, i), Err::<C, u32>(code))
}

/// Opens the handles in order; the first failure ends the attempt and releases
/// what was opened so far.
fn open_all<H, C, O: Fn(H, usize) -> Result<C, u32>>(rest: &mut Vec<H>, open: &O) -> (r: Result<
    Vec<C>,
    ScaleError,
>)
    requires
        forall|h: H, i: usize| open.requires((h, i)),
    ensures
        open_outcome(*open, old(rest)@, vec_result(r)),
        (forall|i: int, code: u32|
            0 <= i < old(rest)@.len() ==> !#[trigger] open.ensures(
                (old(rest)@[i], i as usize),
                Err::<C, u32>(code),
            )) ==> r is Ok,
{
    let ghost all = rest@;
    let n: usize = rest.len();
    let mut out: Vec<C> = Vec::new();
    let mut i: usize = 0;
    while rest.len() > 0
        invariant
            forall|h: H, i: usize| open.requires((h, i)),
            i + rest@.len() == all.len(),
            all.len() == n,
            all == old(rest)@,
            rest@ == all.subrange(i as int, all.len() as int),
            out@.len() == i,
            forall|k: int| 0 <= k < i ==> #[trigger] open.ensures((all[k], k as usize), Ok(out@[k])),
        decreases rest.len(),
    {
        let h = rest.remove(0);
        assert(h == all[i as int]);
        match open(h, i) {
            Ok(c) => {
                out.push(c);
            },
            Err(code) => {
                assert forall|j: int| 0 <= j < i implies opens(*open, #[trigger] all[j], j as usize) by {
                    assert(open.ensures((all[j], j as usize), Ok(out@[j])));
                }
                assert(open.ensures((all[i as int], (i as int) as usize), Err::<C, u32>(code)));
                let e = ScaleError::phidget_error(code, i);
                return Err(e);
            },
        }
        i = i + 1;
    }
    Ok(out)
}

/// A result over a `Vec`, seen over the `Vec`'s contents.
pub open spec fn vec_result<T>(r: Result<Vec<T>, ScaleError>) -> Result<Seq<T>, ScaleError> {
    match r {
        Ok(v) => Ok(v@),
        Err(e) => Err(e),
    }
}

/// Every channel of the scale got a handle bound to the device identifier.
pub open spec fn bound_all<H, B: Fn(usize, i32) -> Option<H>>(bind: B, phidget_id: i32, handles: Seq<H>) -> bool {
    &&& handles.len() == NUMBER_OF_INPUTS
    &&& forall|i: int|
        0 <= i < NUMBER_OF_INPUTS ==> #[trigger] bind.ensures((i as usize, phidget_id), Some(handles[i]))
}

/// Some channel cannot be bound to the device identifier.
pub open spec fn refuses<H, B: Fn(usize, i32) -> Option<H>>(bind: B, phidget_id: i32) -> bool {
    exists|i: usize| i < NUMBER_OF_INPUTS && #[trigger] bind.ensures((i, phidget_id), None::<H>)
}

/// A scale known by its device identifier, with no channel open.
pub struct DisconnectedScale {
    phidget_id: i32,
}

impl DisconnectedScale {
    pub closed spec fn id(&self) -> i32 {
        self.phidget_id
    }

    pub fn new(phidget_id: i32) -> (r: Self)
        ensures
            r.id() == phidget_id,
    {
        Self { phidget_id }
    }

    pub fn get_phidget_id(&self) -> (r: i32)
        ensures
            r == self.id(),
    {
        self.phidget_id
    }

    /// Opens every channel of the device. `bind` makes the handle of a channel
    /// bound to the device identifier, or `None` where the identifier cannot be
    /// bound; `open` waits for the channel to become ready and configures it, or
    /// returns the driver's fault code. All handles are bound before any channel
    /// is opened, so a bad identifier opens nothing; after that channels open in
    /// index order and the first fault ends the attempt.
    pub fn connect<H, C, W, B, O>(
        self,
        offset: W,
        coefficients: [W; NUMBER_OF_INPUTS],
        bind: B,
        open: O,
    ) -> (r: Result<ConnectedScale<C, W>, ScaleError>) where
        B: Fn(usize, i32) -> Option<H>,
        O: Fn(H, usize) -> Result<C, u32>,

        requires
            forall|i: usize, id: i32| bind.requires((i, id)),
            forall|h: H, i: usize| open.requires((h, i)),
        ensures
            r is Err && r->Err_0 == ScaleError::InvalidPhidgetId ==> refuses(bind, self.id()),
            r is Ok || r->Err_0 != ScaleError::InvalidPhidgetId ==> exists|handles: Seq<H>|
                bound_all(bind, self.id(), handles) && open_outcome(open, handles, channels_of(r)),
            r is Ok ==> r->Ok_0.wf() && r->Ok_0@.phidget_id == self.id() && r->Ok_0@.offset == offset
                && r->Ok_0@.coefficients == coefficients@,
            !refuses(bind, self.id()) && never_fails_to_open(open) ==> r is Ok,
    {
        let mut handles: Vec<H> = Vec::new();
        let mut i: usize = 0;
        while i < NUMBER_OF_INPUTS
            invariant
                forall|i: usize, id: i32| bind.requires((i, id)),
                i <= NUMBER_OF_INPUTS,
                handles@.len() == i,
                forall|k: int|
                    0 <= k < i ==> #[trigger] bind.ensures((k as usize, self.phidget_id), Some(handles@[k])),
            decreases NUMBER_OF_INPUTS - i,
        {
            match bind(i, self.phidget_id) {
                Some(h) => {
                    handles.push(h);
                },
                None => {
                    return Err(ScaleError::InvalidPhidgetId);
                },
            }
            i = i + 1;
        }
        let ghost bound = handles@;
        assert(bound_all(bind, self.phidget_id, bound));
        let r = match open_all(&mut handles, &open) {
            Ok(vins) => {
                let s = ConnectedScale { phidget_id: self.phidget_id, offset, coefficients, vins };
                assert(channels_of(Ok::<ConnectedScale<C, W>, ScaleError>(s)) == vec_result(
                    Ok::<Vec<C>, ScaleError>(vins),
                ));
                Ok(s)
            },
            Err(e) => Err(e),
        };
        assert(bound_all(bind, self.id(), bound) && open_outcome(open, bound, channels_of(r)));
        r
    }
}

/// What configuring channels in index order may leave: every channel
/// configured, or the channels before the first fault configured, the faulting
/// one as the driver handed it back, and the rest as they were.
pub open spec fn configure_outcome<C, F: Fn(C) -> Result<C, (C, u32)>>(
    configure: F,
    before: Seq<C>,
    after: Seq<C>,
    r: Result<(), ScaleError>,
) -> bool {
    &&& after.len() == before.len()
    &&& match r {
        Ok(_) => forall|j: int|
            0 <= j < before.len() ==> #[trigger] configure.ensures((before[j],), Ok::<C, (C, u32)>(after[j])),
        Err(ScaleError::PhidgetError(e)) => {
            &&& e.load_cell < before.len()
            &&& configure.ensures(
                (before[e.load_cell as int],),
                Err::<C, (C, u32)>((after[e.load_cell as int], e.return_code)),
            )
            &&& forall|j: int|
                0 <= j < e.load_cell ==> #[trigger] configure.ensures((before[j],), Ok::<C, (C, u32)>(after[j]))
            &&& forall|j: int| e.load_cell < j < before.len() ==> #[trigger] after[j] == before[j]
        },
        Err(_) => false,
    }
}

/// Every channel got a handle from `create`.
pub open spec fn created_all<H, N: Fn(usize) -> H>(create: N, handles: Seq<H>) -> bool {
    &&& handles.len() == NUMBER_OF_INPUTS
    &&& forall|i: int| 0 <= i < NUMBER_OF_INPUTS ==> #[trigger] create.ensures((i as usize,), handles[i])
}

/// What opening the handles and then asking channel 0 for the device
/// identifier may return: the scale, a fault while opening, or the fault of
/// channel 0 when asked for the identifier.
pub open spec fn identified_outcome<H, C, W, O, Q>(
    open: O,
    read_id: Q,
    handles: Seq<H>,
    r: Result<ConnectedScale<C, W>, ScaleError>,
) -> bool where O: Fn(H, usize) -> Result<C, u32>, Q: Fn(&C) -> Result<i32, u32> {
    match r {
        Ok(s) => open_outcome(open, handles, Ok(s@.channels)) && read_id.ensures(
            (&s@.channels[0],),
            Ok(s@.phidget_id),
        ),
        Err(e) => open_outcome(open, handles, Err(e)) || exists|channels: Seq<C>|
            #![trigger open_outcome(open, handles, Ok(channels))]
            {
                &&& open_outcome(open, handles, Ok(channels))
                &&& e == ScaleError::PhidgetError(PhidgetError { return_code: e->PhidgetError_0.return_code, load_cell: 0 })
                &&& read_id.ensures((&channels[0],), Err(e->PhidgetError_0.return_code))
            },
    }
}

/// The channels of a connected scale, or the error in its place.
pub open spec fn channels_of<C, W>(r: Result<ConnectedScale<C, W>, ScaleError>) -> Result<
    Seq<C>,
    ScaleError,
> {
    match r {
        Ok(s) => Ok(s@.channels),
        Err(e) => Err(e),
    }
}

/// What a connected scale is: its device, its calibration and its open channels.
pub struct ScaleModel<C, W> {
    pub phidget_id: i32,
    pub offset: W,
    /// One coefficient per channel.
    pub coefficients: Seq<W>,
    /// The open channels, by index.
    pub channels: Seq<C>,
}

/// A scale with its channels open and its calibration: the weight is the dot
/// product of the readings with the coefficients, less the offset.
pub struct ConnectedScale<C, W> {
    phidget_id: i32,
    offset: W,
    coefficients: [W; NUMBER_OF_INPUTS],
    vins: Vec<C>,
}

impl<C, W> View for ConnectedScale<C, W> {
    type V = ScaleModel<C, W>;

    closed spec fn view(&self) -> ScaleModel<C, W> {
        ScaleModel {
            phidget_id: self.phidget_id,
            offset: self.offset,
            coefficients: self.coefficients@,
            channels: self.vins@,
        }
    }
}

impl<C, W> ConnectedScale<C, W> {
    /// A connected scale holds exactly one open channel per input.
    pub open spec fn wf(&self) -> bool {
        &&& self@.channels.len() == NUMBER_OF_INPUTS
        &&& self@.coefficients.len() == NUMBER_OF_INPUTS
    }

    pub fn get_phidget_id(&self) -> (r: i32)
        ensures
            r == self@.phidget_id,
    {
        self.phidget_id
    }

    /// Replaces the coefficients; the device, the offset and the open channels
    /// are kept as they are.
    pub fn update_coefficients(self, coefficients: [W; NUMBER_OF_INPUTS]) -> (r: Self)
        ensures
            r@.coefficients == coefficients@,
            r@.offset == self@.offset,
            r@.phidget_id == self@.phidget_id,
            r@.channels == self@.channels,
            self.wf() ==> r.wf(),
    {
        Self { phidget_id: self.phidget_id, offset: self.offset, coefficients, vins: self.vins }
    }

    /// Replaces the offset; the device, the coefficients and the open channels
    /// are kept as they are.
    pub fn update_offset(self, offset: W) -> (r: Self)
        ensures
            r@.offset == offset,
            r@.coefficients == self@.coefficients,
            r@.phidget_id == self@.phidget_id,
            r@.channels == self@.channels,
            self.wf() ==> r.wf(),
    {
        Self { phidget_id: self.phidget_id, offset, coefficients: self.coefficients, vins: self.vins }
    }

    /// Configures every channel in index order; `configure` takes a channel and
    /// hands it back, with the driver's fault code where it failed. The first
    /// fault ends the pass and leaves the later channels untouched.
    pub fn set_data_intervals<F: Fn(C) -> Result<C, (C, u32)>>(&mut self, configure: F) -> (r:
        Result<(), ScaleError>)
        requires
            forall|c: C| configure.requires((c,)),
        ensures
            final(self)@.phidget_id == old(self)@.phidget_id,
            final(self)@.offset == old(self)@.offset,
            final(self)@.coefficients == old(self)@.coefficients,
            configure_outcome(configure, old(self)@.channels, final(self)@.channels, r),
            (forall|c: C, d: C, code: u32| !#[trigger] configure.ensures((c,), Err::<C, (C, u32)>((d, code))))
                ==> r is Ok,
    {
        let ghost before = self.vins@;
        let mut i: usize = 0;
        while i < self.vins.len()
            invariant
                forall|c: C| configure.requires((c,)),
                self.phidget_id == old(self).phidget_id,
                self.offset == old(self).offset,
                self.coefficients == old(self).coefficients,
                before == old(self).vins@,
                self.vins@.len() == before.len(),
                i <= before.len(),
                forall|j: int| i <= j < before.len() ==> #[trigger] self.vins@[j] == before[j],
                forall|j: int|
                    0 <= j < i ==> #[trigger] configure.ensures((before[j],), Ok::<C, (C, u32)>(self.vins@[j])),
            decreases before.len() - i,
        {
            let ghost prev = self.vins@;
            let c = self.vins.remove(i);
            match configure(c) {
                Ok(c) => {
                    self.vins.insert(i, c);
                    assert(self.vins@ =~= prev.update(i as int, c));
                },
                Err((c, code)) => {
                    self.vins.insert(i, c);
                    assert(self.vins@ =~= prev.update(i as int, c));
                    return Err(ScaleError::phidget_error(code, i));
                },
            }
            i = i + 1;
        }
        Ok(())
    }

    /// One reading of every channel, in index order. The first channel whose
    /// read faults ends the pass, and the error names it.
    pub fn get_raw_readings<R, F: Fn(&C) -> Result<R, u32>>(&self, read: F) -> (r: Result<
        Vec<R>,
        ScaleError,
    >)
        requires
            forall|c: &C| read.requires((c,)),
        ensures
            read_outcome(read, self@.channels, r),
            never_faults(read, self@.channels) ==> r is Ok,
    {
        read_each(&self.vins, &read)
    }

    /// The sampling interval of every channel, in index order, under the same
    /// rule of the first fault as the readings.
    pub fn get_data_intervals<D, F: Fn(&C) -> Result<D, u32>>(&self, query: F) -> (r: Result<
        Vec<D>,
        ScaleError,
    >)
        requires
            forall|c: &C| query.requires((c,)),
        ensures
            read_outcome(query, self@.channels, r),
            never_faults(query, self@.channels) ==> r is Ok,
    {
        read_each(&self.vins, &query)
    }

    /// `samples` rounds of readings, each a reading of every channel in index
    /// order. The first fault ends the whole collection.
    pub fn sample_channels<R, F: Fn(&C) -> Result<R, u32>>(&self, samples: usize, read: F) -> (r:
        Result<Vec<Vec<R>>, ScaleError>)
        requires
            forall|c: &C| read.requires((c,)),
        ensures
            r is Ok ==> r->Ok_0@.len() == samples && forall|k: int|
                0 <= k < samples ==> read_outcome(read, self@.channels, Ok(#[trigger] r->Ok_0@[k])),
            r is Err ==> read_outcome(read, self@.channels, Err(r->Err_0)),
            never_faults(read, self@.channels) ==> r is Ok,
    {
        let mut rounds: Vec<Vec<R>> = Vec::new();
        let mut k: usize = 0;
        while k < samples
            invariant
                forall|c: &C| read.requires((c,)),
                k <= samples,
                rounds@.len() == k,
                forall|j: int|
                    0 <= j < k ==> read_outcome(read, self@.channels, Ok(#[trigger] rounds@[j])),
            decreases samples - k,
        {
            let round = read_each(&self.vins, &read);
            match round {
                Ok(v) => {
                    rounds.push(v);
                },
                Err(e) => {
                    return Err(e);
                },
            }
            k = k + 1;
        }
        Ok(rounds)
    }
}

impl<C, W: Copy> ConnectedScale<C, W> {
    /// Opens every channel without knowing the device beforehand, then adopts
    /// the identifier that channel 0 reports. `create` makes the unbound handle
    /// of a channel; `open` and the order of opening are as for
    /// `DisconnectedScale::connect`. The scale starts uncalibrated: offset and
    /// every coefficient are `uncalibrated`.
    pub fn without_id<H, N, O, Q>(uncalibrated: W, create: N, open: O, read_id: Q) -> (r: Result<
        Self,
        ScaleError,
    >) where
        N: Fn(usize) -> H,
        O: Fn(H, usize) -> Result<C, u32>,
        Q: Fn(&C) -> Result<i32, u32>,

        requires
            forall|i: usize| create.requires((i,)),
            forall|h: H, i: usize| open.requires((h, i)),
            forall|c: &C| read_id.requires((c,)),
        ensures
            exists|handles: Seq<H>|
                created_all(create, handles) && identified_outcome(open, read_id, handles, r),
            r is Ok ==> r->Ok_0.wf() && r->Ok_0@.offset == uncalibrated && forall|i: int|
                0 <= i < NUMBER_OF_INPUTS ==> #[trigger] r->Ok_0@.coefficients[i] == uncalibrated,
            never_fails_to_open(open) && (forall|c: &C, code: u32|
                !#[trigger] read_id.ensures((c,), Err::<i32, u32>(code))) ==> r is Ok,
    {
        let mut handles: Vec<H> = Vec::new();
        let mut i: usize = 0;
        while i < NUMBER_OF_INPUTS
            invariant
                forall|i: usize| create.requires((i,)),
                i <= NUMBER_OF_INPUTS,
                handles@.len() == i,
                forall|k: int| 0 <= k < i ==> #[trigger] create.ensures((k as usize,), handles@[k]),
            decreases NUMBER_OF_INPUTS - i,
        {
            handles.push(create(i));
            i = i + 1;
        }
        let ghost created = handles@;
        assert(created_all(create, created));
        let r = match open_all(&mut handles, &open) {
            Ok(vins) => match read_id(&vins[0]) {
                Ok(phidget_id) => {
                    let coefficients = [uncalibrated, uncalibrated, uncalibrated, uncalibrated];
                    assert(coefficients@ =~= seq![uncalibrated, uncalibrated, uncalibrated, uncalibrated]);
                    Ok(ConnectedScale { phidget_id, offset: uncalibrated, coefficients, vins })
                },
                Err(code) => {
                    assert(open_outcome(open, created, Ok(vins@)));
                    Err(ScaleError::phidget_error(code, 0))
                },
            },
            Err(e) => Err(e),
        };
        assert(identified_outcome(open, read_id, created, r));
        r
    }
    pub fn offset(&self) -> (r: W)
        ensures
            r == self@.offset,
    {
        self.offset
    }

    pub fn coefficients(&self) -> (r: [W; NUMBER_OF_INPUTS])
        ensures
            r@ == self@.coefficients,
    {
        self.coefficients
    }
}

} // verus!
