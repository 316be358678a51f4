//! Render devices: identifying them, ordering them, and choosing the one a
//! session uses.
use vstd::prelude::*;
use crate::text::{self, chars_eq, chars_of, is_blank, push_decimal, push_str, string_from};

verus! {

/// A render node of the host and the device behind it.
#[derive(Clone, Debug, PartialEq, Eq)]
pub struct Gpu {
    /// The PCI address of the device, as sysfs names it.
    pub id: String,
    /// The kernel driver bound to the device.
    pub driver: String,
    /// The render node's path, such as `/dev/dri/renderD128`.
    pub node: String,
    pub major: u32,
    pub minor: u32,
}

/// A GPU as plain values.
pub struct GpuView {
    pub id: Seq<char>,
    pub driver: Seq<char>,
    pub node: Seq<char>,
    pub major: u32,
    pub minor: u32,
}

impl View for Gpu {
    type V = GpuView;

    open spec fn view(&self) -> GpuView {
        GpuView {
            id: self.id@,
            driver: self.driver@,
            node: self.node@,
            major: self.major,
            minor: self.minor,
        }
    }
}

/// The device is driven by NVIDIA's proprietary driver.
pub open spec fn is_nvidia(g: GpuView) -> bool {
    g.driver == "nvidia"@
}

/// Why a GPU could not be chosen or identified.
#[derive(PartialEq, Eq, Structural, Debug, Clone, Copy)]
pub enum GpuError {
    /// A GPU was named for a session without GPU access.
    SelectionNeedsAccess,
    /// The named GPU, or any GPU at all, is missing.
    Unavailable,
    /// The session's NVIDIA setting and the GPU's driver disagree.
    Incompatible,
    /// No GPU matches the session's NVIDIA setting.
    NoCompatible,
    /// A sysfs name holds characters outside `[A-Za-z0-9._:-]`.
    InvalidIdentity,
    /// The render node's path is not valid text.
    InvalidPath,
}

impl GpuError {
    /// The text shown for the error.
    pub open spec fn message_spec(self) -> Seq<char> {
        match self {
            GpuError::SelectionNeedsAccess => "GPU selection requires GPU access"@,
            GpuError::Unavailable => "Selected GPU is unavailable. Check host devices and sysfs access."@,
            GpuError::Incompatible => "NVIDIA sessions require an NVIDIA GPU; other sessions require a non-NVIDIA GPU or software rendering."@,
            GpuError::NoCompatible => "No compatible GPU is available. Restore a compatible GPU before starting this session."@,
            GpuError::InvalidIdentity => "Invalid GPU identity"@,
            GpuError::InvalidPath => "Invalid GPU path"@,
        }
    }

    /// The text shown for the error.
    pub fn message(&self) -> (r: &'static str)
        ensures
            r@ == self.message_spec(),
    {
        match self {
            GpuError::SelectionNeedsAccess => "GPU selection requires GPU access",
            GpuError::Unavailable => "Selected GPU is unavailable. Check host devices and sysfs access.",
            GpuError::Incompatible => "NVIDIA sessions require an NVIDIA GPU; other sessions require a non-NVIDIA GPU or software rendering.",
            GpuError::NoCompatible => "No compatible GPU is available. Restore a compatible GPU before starting this session.",
            GpuError::InvalidIdentity => "Invalid GPU identity",
            GpuError::InvalidPath => "Invalid GPU path",
        }
    }
}

impl Gpu {
    /// Whether the device is driven by NVIDIA's proprietary driver.
    pub fn nvidia(&self) -> (r: bool)
        ensures
            r == is_nvidia(self@),
    {
        let driver = chars_of(self.driver.as_str());
        let nvidia = chars_of("nvidia");
        chars_eq(driver.as_slice(), nvidia.as_slice())
    }

    /// A copy of this GPU.
    pub fn duplicate(&self) -> (r: Gpu)
        ensures
            r@ == self@,
    {
        Gpu {
            id: self.id.clone(),
            driver: self.driver.clone(),
            node: self.node.clone(),
            major: self.major,
            minor: self.minor,
        }
    }
}

/// The views of a list of GPUs.
pub open spec fn gpu_views(s: Seq<Gpu>) -> Seq<GpuView> {
    s.map_values(|g: Gpu| g@)
}

/// `g` has the NVIDIA setting `nvidia` and the id `id`, where given.
pub open spec fn gpu_matches(g: GpuView, nvidia: Option<bool>, id: Option<Seq<char>>) -> bool {
    &&& nvidia matches Some(n) ==> is_nvidia(g) == n
    &&& id matches Some(x) ==> g.id == x
}

/// The first index of `s` whose GPU matches `nvidia` and `id`.
pub open spec fn first_match(s: Seq<GpuView>, nvidia: Option<bool>, id: Option<Seq<char>>) -> Option<int>
    decreases s.len(),
{
    if s.len() == 0 {
        None
    } else if gpu_matches(s[0], nvidia, id) {
        Some(0)
    } else {
        match first_match(s.drop_first(), nvidia, id) {
            Some(i) => Some(i + 1),
            None => None,
        }
    }
}

/// The GPU that a session asks for: none without GPU access (where naming
/// one is an error), else the GPU with the requested id, or the first GPU
/// when none is requested.
pub open spec fn select_spec(devices: Seq<GpuView>, access: bool, id: Option<Seq<char>>) -> Result<Option<GpuView>, GpuError> {
    if !access {
        if id is Some { Err(GpuError::SelectionNeedsAccess) } else { Ok(None) }
    } else {
        let found = match id {
            Some(x) => first_match(devices, None, Some(x)),
            None => if devices.len() > 0 { Some(0int) } else { None },
        };
        match found {
            Some(i) => Ok(Some(devices[i])),
            None => Err(GpuError::Unavailable),
        }
    }
}

/// A GPU is compatible exactly when it is NVIDIA's in NVIDIA sessions;
/// software rendering only suits sessions that are not NVIDIA sessions.
pub open spec fn compatible_spec(nvidia: bool, gpu: Option<GpuView>) -> bool {
    (gpu matches Some(g) && is_nvidia(g)) == nvidia
}

/// The GPU to start a session on: without GPU access none (which NVIDIA
/// sessions refuse); with it the requested GPU if it is eligible, else the
/// first eligible one, where eligible means matching the session's NVIDIA
/// setting.
pub open spec fn resolve_spec(devices: Seq<GpuView>, nvidia: bool, access: bool, id: Option<Seq<char>>) -> Result<Option<GpuView>, GpuError> {
    if !access {
        if nvidia { Err(GpuError::Incompatible) } else { Ok(None) }
    } else {
        let requested = match id {
            Some(x) => first_match(devices, Some(nvidia), Some(x)),
            None => None,
        };
        let chosen = match requested {
            Some(i) => Some(i),
            None => first_match(devices, Some(nvidia), None),
        };
        match chosen {
            Some(i) => Ok(Some(devices[i])),
            None => Err(GpuError::NoCompatible),
        }
    }
}

/// The view of a returned GPU choice.
pub open spec fn choice_view(r: Result<Option<Gpu>, GpuError>) -> Result<Option<GpuView>, GpuError> {
    match r {
        Ok(Some(g)) => Ok(Some(g@)),
        Ok(None) => Ok(None),
        Err(e) => Err(e),
    }
}

/// `first_match` finds the leftmost matching index.
pub proof fn lemma_first_match(s: Seq<GpuView>, nvidia: Option<bool>, id: Option<Seq<char>>)
    ensures
        match first_match(s, nvidia, id) {
            Some(i) => 0 <= i < s.len() && gpu_matches(s[i], nvidia, id) && forall|j: int|
                0 <= j < i ==> !gpu_matches(#[trigger] s[j], nvidia, id),
            None => forall|j: int| 0 <= j < s.len() ==> !gpu_matches(#[trigger] s[j], nvidia, id),
        },
    decreases s.len(),
{
    if s.len() > 0 && !gpu_matches(s[0], nvidia, id) {
        lemma_first_match(s.drop_first(), nvidia, id);
        assert forall|j: int| 1 <= j < s.len() implies s[j] == s.drop_first()[j - 1] by {}
    }
}

/// One step of `first_match` on a suffix.
proof fn lemma_first_match_skip(s: Seq<GpuView>, nvidia: Option<bool>, id: Option<Seq<char>>, k: int)
    requires
        0 <= k < s.len(),
    ensures
        first_match(s.skip(k), nvidia, id) == if gpu_matches(s[k], nvidia, id) {
            Some(0int)
        } else {
            match first_match(s.skip(k + 1), nvidia, id) {
                Some(i) => Some(i + 1),
                None => None,
            }
        },
{
    assert(s.skip(k).drop_first() =~= s.skip(k + 1));
}

/// The first index of `devices` whose GPU matches `nvidia` and `id`.
fn find_gpu(devices: &[Gpu], nvidia: Option<bool>, id: Option<&[char]>) -> (r: Option<usize>)
    ensures
        match first_match(gpu_views(devices@), nvidia, match id { Some(x) => Some(x@), None => None }) {
            Some(i) => r == Some(i as usize),
            None => r is None,
        },
{
    let ghost idv = match id { Some(x) => Some(x@), None => None };
    let ghost vs = gpu_views(devices@);
    let mut i: usize = devices.len();
    let mut found: Option<usize> = None;
    assert(vs.skip(vs.len() as int) =~= Seq::<GpuView>::empty());
    while i > 0
        invariant
            i <= devices.len(),
            vs == gpu_views(devices@),
            idv == match id { Some(x) => Some(x@), None => None::<Seq<char>> },
            match first_match(vs.skip(i as int), nvidia, idv) {
                Some(k) => found matches Some(f) && f == i + k,
                None => found is None,
            },
        decreases i,
    {
        i -= 1;
        let g = &devices[i];
        let ok_nvidia = match nvidia {
            Some(n) => g.nvidia() == n,
            None => true,
        };
        let ok_id = match id {
            Some(x) => {
                let gid = chars_of(g.id.as_str());
                chars_eq(gid.as_slice(), x)
            },
            None => true,
        };
        proof {
            lemma_first_match_skip(vs, nvidia, idv, i as int);
            assert(vs[i as int] == g@);
        }
        if ok_nvidia && ok_id {
            found = Some(i);
        }
    }
    assert(vs.skip(0) =~= vs);
    found
}

/// Chooses the GPU a session asks for.
pub fn select(devices: &[Gpu], access: bool, id: Option<&str>) -> (r: Result<Option<Gpu>, GpuError>)
    ensures
        choice_view(r) == select_spec(gpu_views(devices@), access, match id {
            Some(x) => Some(x@),
            None => None,
        }),
{
    if !access {
        return if id.is_some() { Err(GpuError::SelectionNeedsAccess) } else { Ok(None) };
    }
    let found = match id {
        Some(x) => {
            let want = chars_of(x);
            find_gpu(devices, None, Some(want.as_slice()))
        },
        None => if devices.len() > 0 { Some(0) } else { None },
    };
    proof {
        match id {
            Some(x) => lemma_first_match(gpu_views(devices@), None, Some(x@)),
            None => {},
        }
    }
    match found {
        Some(i) => Ok(Some(devices[i].duplicate())),
        None => Err(GpuError::Unavailable),
    }
}


/// Checks that the GPU suits the session: NVIDIA sessions need an NVIDIA
/// GPU, other sessions a GPU of another driver or none.
pub fn compatible(nvidia: bool, gpu: Option<&Gpu>) -> (r: Result<(), GpuError>)
    ensures
        r is Ok <==> compatible_spec(nvidia, match gpu { Some(g) => Some(g@), None => None }),
        r is Err ==> r == Err::<(), GpuError>(GpuError::Incompatible),
{
    let has_nvidia = match gpu {
        Some(g) => g.nvidia(),
        None => false,
    };
    if has_nvidia == nvidia {
        Ok(())
    } else {
        Err(GpuError::Incompatible)
    }
}

/// Chooses the GPU to start a session on.
pub fn resolve(devices: &[Gpu], nvidia: bool, access: bool, id: Option<&str>) -> (r: Result<Option<Gpu>, GpuError>)
    ensures
        choice_view(r) == resolve_spec(gpu_views(devices@), nvidia, access, match id {
            Some(x) => Some(x@),
            None => None,
        }),
{
    if !access {
        compatible(nvidia, None)?;
        return Ok(None);
    }
    let requested = match id {
        Some(x) => {
            let want = chars_of(x);
            find_gpu(devices, Some(nvidia), Some(want.as_slice()))
        },
        None => None,
    };
    let chosen = match requested {
        Some(i) => Some(i),
        None => find_gpu(devices, Some(nvidia), None),
    };
    proof {
        lemma_first_match(gpu_views(devices@), Some(nvidia), None);
        match id {
            Some(x) => lemma_first_match(gpu_views(devices@), Some(nvidia), Some(x@)),
            None => {},
        }
    }
    match chosen {
        Some(i) => Ok(Some(devices[i].duplicate())),
        None => Err(GpuError::NoCompatible),
    }
}


/// GPUs whose driver matches the session's NVIDIA setting.
pub open spec fn eligible(nvidia: bool) -> spec_fn(GpuView) -> bool {
    |g: GpuView| is_nvidia(g) == nvidia
}

/// The GPUs among `devices` whose driver matches the session's NVIDIA
/// setting, in order.
fn eligible_devices(devices: &[Gpu], nvidia: bool) -> (r: Vec<Gpu>)
    ensures
        gpu_views(r@) == gpu_views(devices@).filter(eligible(nvidia)),
{
    let ghost all = gpu_views(devices@);
    let mut out: Vec<Gpu> = Vec::new();
    let mut i: usize = 0;
    while i < devices.len()
        invariant
            i <= devices.len(),
            all == gpu_views(devices@),
            gpu_views(out@) == all.take(i as int).filter(eligible(nvidia)),
        decreases devices.len() - i,
    {
        let ghost before = gpu_views(out@);
        proof {
            assert(all.take(i + 1) =~= all.take(i as int).push(all[i as int]));
            all.take(i as int).lemma_filter_push(all[i as int], eligible(nvidia));
            assert(all[i as int] == devices@[i as int]@);
        }
        if devices[i].nvidia() == nvidia {
            out.push(devices[i].duplicate());
            assert(gpu_views(out@) =~= before.push(all[i as int]));
        }
        i += 1;
    }
    assert(all.take(i as int) =~= all);
    out
}

/// The GPU a session keeps when its settings are saved: its current GPU
/// when neither GPU access nor the requested GPU changed, else the GPU the
/// request selects among those matching the session's NVIDIA setting; the
/// result must suit the session.
pub open spec fn settings_gpu_spec(
    devices: Seq<GpuView>,
    nvidia: bool,
    requested_access: bool,
    requested_id: Option<Seq<char>>,
    current_access: bool,
    current: Option<GpuView>,
) -> Result<Option<GpuView>, GpuError> {
    let kept = requested_access == current_access && requested_id == match current {
        Some(g) => Some(g.id),
        None => None,
    };
    let chosen = if kept {
        Ok(current)
    } else {
        select_spec(devices.filter(eligible(nvidia)), requested_access, requested_id)
    };
    match chosen {
        Ok(g) => if compatible_spec(nvidia, g) { Ok(g) } else { Err(GpuError::Incompatible) },
        Err(e) => Err(e),
    }
}

/// Chooses the GPU a session keeps when its settings are saved.
pub fn settings_gpu(
    devices: &[Gpu],
    nvidia: bool,
    requested_access: bool,
    requested_id: Option<&str>,
    current_access: bool,
    current: Option<&Gpu>,
) -> (r: Result<Option<Gpu>, GpuError>)
    ensures
        choice_view(r) == settings_gpu_spec(
            gpu_views(devices@),
            nvidia,
            requested_access,
            match requested_id { Some(x) => Some(x@), None => None },
            current_access,
            match current { Some(g) => Some(g@), None => None },
        ),
        r matches Ok(g) ==> compatible_spec(nvidia, match g { Some(x) => Some(x@), None => None }),
{
    let current_id = match current {
        Some(g) => Some(g.id.as_str()),
        None => None,
    };
    let keep = crate::lifecycle::keep_gpu(requested_access, requested_id, current_access, current_id);
    let chosen = if keep {
        Ok(match current {
            Some(g) => Some(g.duplicate()),
            None => None,
        })
    } else {
        let candidates = eligible_devices(devices, nvidia);
        select(candidates.as_slice(), requested_access, requested_id)
    };
    match chosen {
        Ok(gpu) => {
            let fits = match &gpu {
                Some(g) => compatible(nvidia, Some(g)),
                None => compatible(nvidia, None),
            };
            match fits {
                Ok(()) => Ok(gpu),
                Err(e) => Err(e),
            }
        },
        Err(e) => Err(e),
    }
}

/// Whatever `resolve` chooses suits the session: an NVIDIA GPU for NVIDIA
/// sessions, another GPU or none otherwise, and a chosen GPU is one of the
/// devices.
pub proof fn resolved_gpu_is_compatible(devices: Seq<GpuView>, nvidia: bool, access: bool, id: Option<Seq<char>>)
    ensures
        resolve_spec(devices, nvidia, access, id) matches Ok(g) ==> compatible_spec(nvidia, g),
        resolve_spec(devices, nvidia, access, id) matches Ok(Some(g)) ==> devices.contains(g),
{
    lemma_first_match(devices, Some(nvidia), None);
    match id {
        Some(x) => lemma_first_match(devices, Some(nvidia), Some(x)),
        None => {},
    }
}

/// With GPU access, a session asking for a GPU by id gets that GPU when a
/// device with the id has the session's NVIDIA setting: the first such
/// device.
pub proof fn resolve_honours_requested_gpu(devices: Seq<GpuView>, nvidia: bool, id: Seq<char>, k: int)
    requires
        0 <= k < devices.len(),
        devices[k].id == id,
        (devices[k].driver == "nvidia"@) == nvidia,
    ensures
        resolve_spec(devices, nvidia, true, Some(id)) matches Ok(Some(g)) && g.id == id && (g.driver
            == "nvidia"@) == nvidia && exists|j: int|
            0 <= j <= k && devices[j] == g && forall|i: int|
                0 <= i < j ==> !(devices[i].id == id && (devices[i].driver == "nvidia"@) == nvidia),
{
    lemma_first_match(devices, Some(nvidia), Some(id));
    lemma_first_match(devices, Some(nvidia), None);
    assert(gpu_matches(devices[k], Some(nvidia), Some(id)));
}

/// With GPU access and no eligible device of the requested id (or none
/// requested), a session gets the first device with its NVIDIA setting,
/// and is refused only when there is none.
pub proof fn resolve_falls_back_to_first_eligible(devices: Seq<GpuView>, nvidia: bool, id: Option<Seq<char>>)
    requires
        forall|i: int|
            0 <= i < devices.len() ==> !(id == Some(devices[i].id) && (devices[i].driver == "nvidia"@) == nvidia),
    ensures
        (exists|k: int| 0 <= k < devices.len() && (devices[k].driver == "nvidia"@) == nvidia) ==> (resolve_spec(
            devices,
            nvidia,
            true,
            id,
        ) matches Ok(Some(g)) && exists|j: int|
            0 <= j < devices.len() && devices[j] == g && (g.driver == "nvidia"@) == nvidia && forall|i: int|
                0 <= i < j ==> (devices[i].driver == "nvidia"@) != nvidia),
        (forall|k: int| 0 <= k < devices.len() ==> (devices[k].driver == "nvidia"@) != nvidia) ==> resolve_spec(
            devices,
            nvidia,
            true,
            id,
        ) == Err::<Option<GpuView>, GpuError>(GpuError::NoCompatible),
{
    lemma_first_match(devices, Some(nvidia), None);
    match id {
        Some(x) => {
            lemma_first_match(devices, Some(nvidia), Some(x));
            if first_match(devices, Some(nvidia), Some(x)) is Some {
                let i = first_match(devices, Some(nvidia), Some(x))->0;
                assert(gpu_matches(devices[i], Some(nvidia), Some(x)));
            }
        },
        None => {},
    }
    if exists|k: int| 0 <= k < devices.len() && (devices[k].driver == "nvidia"@) == nvidia {
        let k = choose|k: int| 0 <= k < devices.len() && (devices[k].driver == "nvidia"@) == nvidia;
        assert(gpu_matches(devices[k], Some(nvidia), None));
    }
}

/// Without GPU access a session gets no GPU, which NVIDIA sessions refuse;
/// asking for a GPU by name then is refused.
pub proof fn no_gpu_without_access(devices: Seq<GpuView>, nvidia: bool, id: Option<Seq<char>>)
    ensures
        resolve_spec(devices, nvidia, false, id) == if nvidia {
            Err::<Option<GpuView>, GpuError>(GpuError::Incompatible)
        } else {
            Ok(None)
        },
        select_spec(devices, false, id) == if id is Some {
            Err::<Option<GpuView>, GpuError>(GpuError::SelectionNeedsAccess)
        } else {
            Ok(None)
        },
{
}

/// With GPU access, `select` gives the first device of the requested id,
/// or the first device when none is requested, and is refused only when
/// there is no such device.
pub proof fn select_finds_requested_gpu(devices: Seq<GpuView>, id: Option<Seq<char>>)
    ensures
        match id {
            Some(x) => if exists|k: int| 0 <= k < devices.len() && devices[k].id == x {
                select_spec(devices, true, id) matches Ok(Some(g)) && exists|j: int|
                    0 <= j < devices.len() && devices[j] == g && g.id == x && forall|i: int|
                        0 <= i < j ==> devices[i].id != x
            } else {
                select_spec(devices, true, id) == Err::<Option<GpuView>, GpuError>(GpuError::Unavailable)
            },
            None => if devices.len() > 0 {
                select_spec(devices, true, id) == Ok::<Option<GpuView>, GpuError>(Some(devices[0]))
            } else {
                select_spec(devices, true, id) == Err::<Option<GpuView>, GpuError>(GpuError::Unavailable)
            },
        },
{
    match id {
        Some(x) => {
            lemma_first_match(devices, None, Some(x));
            if exists|k: int| 0 <= k < devices.len() && devices[k].id == x {
                let k = choose|k: int| 0 <= k < devices.len() && devices[k].id == x;
                assert(gpu_matches(devices[k], None, Some(x)));
            }
        },
        None => {},
    }
}

/// A GPU suits a session exactly when it is NVIDIA's for an NVIDIA session
/// and not NVIDIA's otherwise; no GPU suits only sessions that are not
/// NVIDIA sessions.
pub proof fn compatibility_follows_the_driver(nvidia: bool, gpu: Option<GpuView>)
    ensures
        compatible_spec(nvidia, gpu) == match gpu {
            Some(g) => (g.driver == "nvidia"@) == nvidia,
            None => !nvidia,
        },
{
}

/// Whatever `select` chooses is one of the devices, and the requested one
/// when an id is given.
pub proof fn selected_gpu_is_requested(devices: Seq<GpuView>, access: bool, id: Option<Seq<char>>)
    ensures
        select_spec(devices, access, id) matches Ok(Some(g)) ==> devices.contains(g) && (id matches Some(x) ==> g.id
            == x),
        select_spec(devices, access, id) matches Ok(None) ==> !access,
{
    match id {
        Some(x) => lemma_first_match(devices, None, Some(x)),
        None => {},
    }
}

/// Saving settings keeps the session's GPU while neither GPU access nor the
/// requested GPU changes; otherwise the request chooses among the devices
/// that match the session's NVIDIA setting, and a requested GPU is the one
/// kept. Whatever GPU is kept suits the session: NVIDIA's exactly in NVIDIA
/// sessions.
pub proof fn saved_gpu_follows_the_request(
    devices: Seq<GpuView>,
    nvidia: bool,
    requested_access: bool,
    requested_id: Option<Seq<char>>,
    current_access: bool,
    current: Option<GpuView>,
)
    ensures
        ({
            let r = settings_gpu_spec(devices, nvidia, requested_access, requested_id, current_access, current);
            let kept = requested_access == current_access && requested_id == match current {
                Some(g) => Some(g.id),
                None => None,
            };
            let suits = match current {
                Some(g) => (g.driver == "nvidia"@) == nvidia,
                None => !nvidia,
            };
            &&& kept ==> r == if suits {
                Ok::<Option<GpuView>, GpuError>(current)
            } else {
                Err(GpuError::Incompatible)
            }
            &&& (r matches Ok(Some(g)) ==> (g.driver == "nvidia"@) == nvidia)
            &&& (r matches Ok(None) ==> !nvidia)
            &&& !kept ==> (r matches Ok(Some(g)) ==> devices.contains(g) && (requested_id matches Some(x) ==> g.id
                == x))
            &&& !kept && !requested_access ==> r == if requested_id is Some {
                Err::<Option<GpuView>, GpuError>(GpuError::SelectionNeedsAccess)
            } else if nvidia {
                Err(GpuError::Incompatible)
            } else {
                Ok(None)
            }
        }),
{
    let eligible_devices = devices.filter(eligible(nvidia));
    selected_gpu_is_requested(eligible_devices, requested_access, requested_id);
    match select_spec(eligible_devices, requested_access, requested_id) {
        Ok(Some(g)) => {
            if eligible_devices.contains(g) {
                devices.lemma_filter_contains_rev(eligible(nvidia), g);
            }
        },
        _ => {},
    }
}

// ---------------------------------------------------------------------------
// Ordering of render nodes
// ---------------------------------------------------------------------------

/// `a` comes no later than `b` by device numbers `(major, minor)`.
pub open spec fn numbers_le(a: Gpu, b: Gpu) -> bool {
    a.major < b.major || (a.major == b.major && a.minor <= b.minor)
}

/// The devices are in ascending order of device numbers.
pub open spec fn sorted_by_numbers(s: Seq<Gpu>) -> bool {
    forall|i: int, j: int| 0 <= i < j < s.len() ==> numbers_le(s[i], s[j])
}

/// The device has the numbers `major:minor`.
pub open spec fn has_numbers(major: u32, minor: u32) -> spec_fn(Gpu) -> bool {
    |g: Gpu| g.major == major && g.minor == minor
}

/// Filtering out every element leaves nothing.
proof fn lemma_filter_none(s: Seq<Gpu>, pred: spec_fn(Gpu) -> bool)
    requires
        forall|i: int| 0 <= i < s.len() ==> !pred(#[trigger] s[i]),
    ensures
        s.filter(pred) == Seq::<Gpu>::empty(),
    decreases s.len(),
{
    if s.len() > 0 {
        lemma_filter_none(s.drop_last(), pred);
        s.drop_last().lemma_filter_push(s.last(), pred);
        assert(s.drop_last().push(s.last()) =~= s);
    }
}

/// Sorts devices by device numbers, keeping devices with equal numbers in
/// their given order (a stable sort by `(major, minor)`).
pub fn sort_devices(devices: Vec<Gpu>) -> (r: Vec<Gpu>)
    ensures
        sorted_by_numbers(r@),
        forall|major: u32, minor: u32|
            #[trigger] r@.filter(has_numbers(major, minor)) == devices@.filter(has_numbers(major, minor)),
{
    let ghost orig = devices@;
    let mut rest = devices;
    let mut out: Vec<Gpu> = Vec::new();
    let ghost mut done: int = 0;
    assert(orig.skip(0) =~= orig);
    assert(orig.take(0) =~= Seq::<Gpu>::empty());
    while rest.len() > 0
        invariant
            0 <= done <= orig.len(),
            rest@ == orig.skip(done),
            sorted_by_numbers(out@),
            forall|major: u32, minor: u32|
                #[trigger] out@.filter(has_numbers(major, minor)) == orig.take(done).filter(has_numbers(major, minor)),
        decreases rest.len(),
    {
        let x = rest.remove(0);
        assert(x == orig[done]);
        let mut p: usize = 0;
        while p < out.len() && (out[p].major < x.major || (out[p].major == x.major && out[p].minor <= x.minor))
            invariant
                p <= out.len(),
                forall|i: int| 0 <= i < p ==> numbers_le(#[trigger] out@[i], x),
            decreases out.len() - p,
        {
            p += 1;
        }
        let ghost before = out@;
        proof {
            assert forall|i: int| p <= i < before.len() implies !numbers_le(#[trigger] before[i], x) by {
                assert(!numbers_le(before[p as int], x));
                if i > p {
                    assert(numbers_le(before[p as int], before[i]));
                }
            }
        }
        out.insert(p, x);
        proof {
            let head = before.take(p as int);
            let tail = before.skip(p as int);
            assert(before =~= head + tail);
            assert(out@ =~= head + seq![x] + tail);
            assert forall|major: u32, minor: u32|
                #[trigger] out@.filter(has_numbers(major, minor)) == orig.take(done + 1).filter(has_numbers(major, minor)) by {
                let pred = has_numbers(major, minor);
                Seq::filter_distributes_over_add(head, tail, pred);
                Seq::filter_distributes_over_add(head + seq![x], tail, pred);
                Seq::filter_distributes_over_add(head, seq![x], pred);
                assert(orig.take(done + 1) =~= orig.take(done).push(x));
                orig.take(done).lemma_filter_push(x, pred);
                head.lemma_filter_push(x, pred);
                assert(head + seq![x] =~= head.push(x));
                if pred(x) {
                    lemma_filter_none(tail, pred);
                    assert(head.filter(pred) + tail.filter(pred) =~= head.filter(pred));
                    assert(head.filter(pred).push(x) + tail.filter(pred) =~= head.filter(pred).push(x));
                } else {
                    Seq::filter_distributes_over_add(head.push(x), tail, pred);
                }
            }
            assert forall|i: int, j: int| 0 <= i < j < out@.len() implies numbers_le(out@[i], out@[j]) by {
                if j < p {
                } else if j == p {
                    assert(numbers_le(before[i], x));
                } else if i < p {
                    assert(numbers_le(before[i], x));
                    assert(!numbers_le(before[j - 1], x));
                } else if i == p {
                    assert(!numbers_le(before[j - 1], x));
                } else {
                    assert(numbers_le(before[i - 1], before[j - 1]));
                }
            }
            assert(rest@ =~= orig.skip(done + 1));
            done = done + 1;
        }
    }
    assert(orig.take(done) =~= orig);
    out
}


// ---------------------------------------------------------------------------
// Identifying render nodes
// ---------------------------------------------------------------------------

/// The major number that a Linux `dev_t` encodes.
pub open spec fn major_of(dev: u64) -> u32 {
    (((dev & 0xfff00u64) >> 8u64) | ((dev & 0xfffff00000000000u64) >> 32u64)) as u32
}

/// The minor number that a Linux `dev_t` encodes.
pub open spec fn minor_of(dev: u64) -> u32 {
    ((dev & 0xffu64) | ((dev & 0xffffff00000u64) >> 12u64)) as u32
}

/// `libc::major` on Linux: the major number bits of a device number, as the
/// crate's source computes them.
#[verifier::external_body]
fn libc_major(dev: u64) -> (r: u32)
    ensures
        r == major_of(dev),
{
    libc::major(dev)
}

/// `libc::minor` on Linux: the minor number bits of a device number, as the
/// crate's source computes them.
#[verifier::external_body]
fn libc_minor(dev: u64) -> (r: u32)
    ensures
        r == minor_of(dev),
{
    libc::minor(dev)
}

/// The major and minor numbers of a character device's `st_rdev`.
pub fn device_numbers(rdev: u64) -> (r: (u32, u32))
    ensures
        r == (major_of(rdev), minor_of(rdev)),
{
    (libc_major(rdev), libc_minor(rdev))
}

/// A directory entry of `/dev/dri` names a render node: `renderD` followed
/// by one or more ASCII digits.
pub open spec fn render_node_spec(name: Seq<char>) -> bool {
    match text::strip_prefix(name, "renderD"@) {
        Some(n) => n.len() > 0 && text::all_digits(n),
        None => false,
    }
}

/// Whether a directory entry of `/dev/dri` names a render node.
pub fn is_render_node(name: &str) -> (r: bool)
    ensures
        r == render_node_spec(name@),
{
    let all = chars_of(name);
    let prefix = chars_of("renderD");
    match text::strip_prefix_chars(all.as_slice(), prefix.as_slice()) {
        Some(n) => {
            if n.len() == 0 {
                return false;
            }
            let mut i: usize = 0;
            while i < n.len()
                invariant
                    i <= n.len(),
                    text::strip_prefix(name@, "renderD"@) == Some(n@),
                    forall|k: int| 0 <= k < i ==> text::is_digit(n@[k]),
                decreases n.len() - i,
            {
                if !('0' <= n[i] && n[i] <= '9') {
                    return false;
                }
                i += 1;
            }
            true
        },
        None => false,
    }
}

/// A character allowed in sysfs device and driver names.
pub open spec fn identity_char(c: char) -> bool {
    text::is_alnum(c) || c == '.' || c == '_' || c == ':' || c == '-'
}

/// A sysfs name made only of `[A-Za-z0-9._:-]`.
pub open spec fn valid_identity_spec(name: Seq<char>) -> bool {
    forall|i: int| 0 <= i < name.len() ==> identity_char(name[i])
}

/// Whether a sysfs device or driver name is made only of `[A-Za-z0-9._:-]`.
pub fn valid_identity(name: &str) -> (r: bool)
    ensures
        r == valid_identity_spec(name@),
{
    let all = chars_of(name);
    let mut i: usize = 0;
    while i < all.len()
        invariant
            i <= all.len(),
            all@ == name@,
            forall|k: int| 0 <= k < i ==> identity_char(all@[k]),
        decreases all.len() - i,
    {
        let c = all[i];
        let ok = ('0' <= c && c <= '9') || ('a' <= c && c <= 'z') || ('A' <= c && c <= 'Z') || c == '.'
            || c == '_' || c == ':' || c == '-';
        if !ok {
            return false;
        }
        i += 1;
    }
    true
}

/// The GPU behind a render node, from the names sysfs gives its device and
/// driver (absent when they are not valid text) and the node's path.
pub open spec fn identify_spec(
    device: Option<Seq<char>>,
    driver: Option<Seq<char>>,
    node: Option<Seq<char>>,
    major: u32,
    minor: u32,
) -> Result<GpuView, GpuError> {
    match (device, driver, node) {
        (Some(d), Some(r), Some(n)) => if valid_identity_spec(d) && valid_identity_spec(r) {
            Ok(GpuView { id: d, driver: r, node: n, major, minor })
        } else {
            Err(GpuError::InvalidIdentity)
        },
        (Some(d), Some(r), None) => if valid_identity_spec(d) && valid_identity_spec(r) {
            Err(GpuError::InvalidPath)
        } else {
            Err(GpuError::InvalidIdentity)
        },
        _ => Err(GpuError::InvalidIdentity),
    }
}

/// Identifies the GPU behind a render node.
pub fn identify(
    device: Option<&str>,
    driver: Option<&str>,
    node: Option<&str>,
    major: u32,
    minor: u32,
) -> (r: Result<Gpu, GpuError>)
    ensures
        match r {
            Ok(g) => identify_spec(
                match device { Some(x) => Some(x@), None => None },
                match driver { Some(x) => Some(x@), None => None },
                match node { Some(x) => Some(x@), None => None },
                major,
                minor,
            ) == Ok::<GpuView, GpuError>(g@),
            Err(e) => identify_spec(
                match device { Some(x) => Some(x@), None => None },
                match driver { Some(x) => Some(x@), None => None },
                match node { Some(x) => Some(x@), None => None },
                major,
                minor,
            ) == Err::<GpuView, GpuError>(e),
        },
{
    let id = match device {
        Some(d) => if valid_identity(d) { d } else { return Err(GpuError::InvalidIdentity) },
        None => return Err(GpuError::InvalidIdentity),
    };
    let drv = match driver {
        Some(d) => if valid_identity(d) { d } else { return Err(GpuError::InvalidIdentity) },
        None => return Err(GpuError::InvalidIdentity),
    };
    let path = match node {
        Some(n) => n,
        None => return Err(GpuError::InvalidPath),
    };
    Ok(Gpu { id: id.to_string(), driver: drv.to_string(), node: path.to_string(), major, minor })
}

/// A sysfs name made only of ASCII letters, digits and `._:-`.
pub open spec fn plain_sysfs_name(name: Seq<char>) -> bool {
    forall|i: int|
        0 <= i < name.len() ==> {
            let c = #[trigger] name[i];
            ||| '0' <= c <= '9'
            ||| 'a' <= c <= 'z'
            ||| 'A' <= c <= 'Z'
            ||| c == '.'
            ||| c == '_'
            ||| c == ':'
            ||| c == '-'
        }
}

/// A render node is identified exactly when sysfs names its device and
/// driver with plain names and the node has a path; the GPU then carries
/// those names, that path and the node's device numbers.
pub proof fn gpu_is_what_sysfs_names(
    device: Option<Seq<char>>,
    driver: Option<Seq<char>>,
    node: Option<Seq<char>>,
    major: u32,
    minor: u32,
)
    ensures
        identify_spec(device, driver, node, major, minor) is Ok <==> (device matches Some(d) && driver matches Some(
            r,
        ) && node is Some && plain_sysfs_name(d) && plain_sysfs_name(r)),
        identify_spec(device, driver, node, major, minor) matches Ok(g) ==> device == Some(g.id) && driver == Some(
            g.driver,
        ) && node == Some(g.node) && g.major == major && g.minor == minor,
{
}

/// A directory entry names a render node exactly when it is `renderD`
/// followed by one or more ASCII digits.
pub proof fn render_nodes_are_numbered(n: Seq<char>, name: Seq<char>)
    ensures
        render_node_spec("renderD"@ + n) <==> (n.len() > 0 && forall|i: int| 0 <= i < n.len() ==> '0' <= #[trigger] n[i]
            <= '9'),
        name.len() < 7 || name.take(7) != "renderD"@ ==> !render_node_spec(name),
{
    reveal_strlit("renderD");
    let full = "renderD"@ + n;
    assert(full.take(7) =~= "renderD"@);
    assert(full.skip(7) =~= n);
}

/// The sysfs directory of the device behind `major:minor`.
pub fn sysfs_device_path(major: u32, minor: u32) -> (r: String)
    ensures
        r@ == "/sys/dev/char/"@ + text::decimal(major as nat) + ":"@ + text::decimal(minor as nat)
            + "/device"@,
{
    let mut out: Vec<char> = Vec::new();
    push_str(&mut out, "/sys/dev/char/");
    push_decimal(&mut out, major as u64);
    push_str(&mut out, ":");
    push_decimal(&mut out, minor as u64);
    push_str(&mut out, "/device");
    string_from(out.as_slice())
}

} // verus!
