//! Loading the libva runtime: which libraries and symbols it needs, in which
//! order, and how a failure is reported.

use vstd::prelude::*;

use crate::text::joined;

verus! {

/// What a step of the loading loads.
#[derive(Clone, Copy, Debug, PartialEq, Eq, Structural)]
pub enum LoadKind {
    /// A shared library.
    Library,
    /// A symbol of the core library.
    VaSymbol,
    /// A symbol of the DRM backend.
    DrmSymbol,
}

/// One step of the loading.
#[derive(Clone, Copy, Debug)]
pub struct LoadItem {
    pub kind: LoadKind,
    pub name: &'static str,
}

/// The kind and the name of a step.
pub type LoadRow = (LoadKind, Seq<char>);

impl View for LoadItem {
    type V = LoadRow;

    open spec fn view(&self) -> LoadRow {
        (self.kind, self.name@)
    }
}

/// The two libraries that the runtime consists of.
pub open spec fn framework_rows() -> Seq<LoadRow> {
    seq![(LoadKind::Library, "libva.so.2"@), (LoadKind::Library, "libva-drm.so.2"@)]
}

/// The symbols that are called.
pub open spec fn symbol_rows() -> Seq<LoadRow> {
    seq![
        (LoadKind::VaSymbol, "vaInitialize"@),
        (LoadKind::VaSymbol, "vaTerminate"@),
        (LoadKind::VaSymbol, "vaErrorStr"@),
        (LoadKind::VaSymbol, "vaQueryVendorString"@),
        (LoadKind::VaSymbol, "vaMaxNumProfiles"@),
        (LoadKind::VaSymbol, "vaQueryConfigProfiles"@),
        (LoadKind::VaSymbol, "vaCreateConfig"@),
        (LoadKind::VaSymbol, "vaCreateContext"@),
        (LoadKind::VaSymbol, "vaCreateSurfaces"@),
        (LoadKind::VaSymbol, "vaDestroySurfaces"@),
        (LoadKind::VaSymbol, "vaBeginPicture"@),
        (LoadKind::VaSymbol, "vaRenderPicture"@),
        (LoadKind::VaSymbol, "vaEndPicture"@),
        (LoadKind::VaSymbol, "vaCreateBuffer"@),
        (LoadKind::VaSymbol, "vaQueryConfigEntrypoints"@),
        (LoadKind::VaSymbol, "vaGetConfigAttributes"@),
        (LoadKind::VaSymbol, "vaDestroyConfig"@),
        (LoadKind::VaSymbol, "vaDestroyContext"@),
        (LoadKind::VaSymbol, "vaSyncSurface"@),
        (LoadKind::VaSymbol, "vaDestroyBuffer"@),
        (LoadKind::VaSymbol, "vaMapBuffer"@),
        (LoadKind::VaSymbol, "vaUnmapBuffer"@),
        (LoadKind::VaSymbol, "vaDeriveImage"@),
        (LoadKind::VaSymbol, "vaDestroyImage"@),
        (LoadKind::VaSymbol, "vaGetImage"@),
        (LoadKind::VaSymbol, "vaPutImage"@),
        (LoadKind::VaSymbol, "vaCreateImage"@),
        (LoadKind::VaSymbol, "vaQueryImageFormats"@),
        (LoadKind::VaSymbol, "vaMaxNumImageFormats"@),
        (LoadKind::DrmSymbol, "vaGetDisplayDRM"@),
    ]
}

/// The steps of a list, as rows.
pub open spec fn rows_of(items: Seq<LoadItem>) -> Seq<LoadRow> {
    items.map_values(|item: LoadItem| item@)
}

/// The libraries to open, in order.
pub fn framework_plan() -> (plan: Vec<LoadItem>)
    ensures
        rows_of(plan@) == framework_rows(),
{
    let mut plan: Vec<LoadItem> = Vec::new();
    plan.push(LoadItem { kind: LoadKind::Library, name: "libva.so.2" });
    plan.push(LoadItem { kind: LoadKind::Library, name: "libva-drm.so.2" });
    assert(rows_of(plan@) =~= framework_rows());
    plan
}

/// The libraries to open and the symbols to resolve, in order.
pub fn vtable_plan() -> (plan: Vec<LoadItem>)
    ensures
        rows_of(plan@) == framework_rows() + symbol_rows(),
{
    let mut plan: Vec<LoadItem> = framework_plan();
    let ghost libraries = plan@;
    assert(libraries.len() == 2) by {
        assert(rows_of(libraries).len() == 2);
    }
    plan.push(LoadItem { kind: LoadKind::VaSymbol, name: "vaInitialize" });
    plan.push(LoadItem { kind: LoadKind::VaSymbol, name: "vaTerminate" });
    plan.push(LoadItem { kind: LoadKind::VaSymbol, name: "vaErrorStr" });
    plan.push(LoadItem { kind: LoadKind::VaSymbol, name: "vaQueryVendorString" });
    plan.push(LoadItem { kind: LoadKind::VaSymbol, name: "vaMaxNumProfiles" });
    plan.push(LoadItem { kind: LoadKind::VaSymbol, name: "vaQueryConfigProfiles" });
    plan.push(LoadItem { kind: LoadKind::VaSymbol, name: "vaCreateConfig" });
    plan.push(LoadItem { kind: LoadKind::VaSymbol, name: "vaCreateContext" });
    plan.push(LoadItem { kind: LoadKind::VaSymbol, name: "vaCreateSurfaces" });
    plan.push(LoadItem { kind: LoadKind::VaSymbol, name: "vaDestroySurfaces" });
    plan.push(LoadItem { kind: LoadKind::VaSymbol, name: "vaBeginPicture" });
    plan.push(LoadItem { kind: LoadKind::VaSymbol, name: "vaRenderPicture" });
    plan.push(LoadItem { kind: LoadKind::VaSymbol, name: "vaEndPicture" });
    plan.push(LoadItem { kind: LoadKind::VaSymbol, name: "vaCreateBuffer" });
    plan.push(LoadItem { kind: LoadKind::VaSymbol, name: "vaQueryConfigEntrypoints" });
    plan.push(LoadItem { kind: LoadKind::VaSymbol, name: "vaGetConfigAttributes" });
    plan.push(LoadItem { kind: LoadKind::VaSymbol, name: "vaDestroyConfig" });
    plan.push(LoadItem { kind: LoadKind::VaSymbol, name: "vaDestroyContext" });
    plan.push(LoadItem { kind: LoadKind::VaSymbol, name: "vaSyncSurface" });
    plan.push(LoadItem { kind: LoadKind::VaSymbol, name: "vaDestroyBuffer" });
    plan.push(LoadItem { kind: LoadKind::VaSymbol, name: "vaMapBuffer" });
    plan.push(LoadItem { kind: LoadKind::VaSymbol, name: "vaUnmapBuffer" });
    plan.push(LoadItem { kind: LoadKind::VaSymbol, name: "vaDeriveImage" });
    plan.push(LoadItem { kind: LoadKind::VaSymbol, name: "vaDestroyImage" });
    plan.push(LoadItem { kind: LoadKind::VaSymbol, name: "vaGetImage" });
    plan.push(LoadItem { kind: LoadKind::VaSymbol, name: "vaPutImage" });
    plan.push(LoadItem { kind: LoadKind::VaSymbol, name: "vaCreateImage" });
    plan.push(LoadItem { kind: LoadKind::VaSymbol, name: "vaQueryImageFormats" });
    plan.push(LoadItem { kind: LoadKind::VaSymbol, name: "vaMaxNumImageFormats" });
    plan.push(LoadItem { kind: LoadKind::DrmSymbol, name: "vaGetDisplayDRM" });
    assert(rows_of(plan@) =~= rows_of(libraries) + symbol_rows());
    plan
}

/// How a step that failed is reported.
pub open spec fn load_failure(row: LoadRow, text: Seq<char>) -> Seq<char> {
    (match row.0 {
        LoadKind::Library => "dlopen "@,
        _ => "dlsym "@,
    }) + row.1 + ": "@ + text
}

/// Where the loading stands.
pub enum LoadStep {
    /// This item has to be loaded.
    Load(LoadItem),
    /// Everything is loaded.
    Loaded,
    /// The loading failed, for this reason.
    Failed(String),
}

/// A [`LoadStep`] with its texts as character sequences.
#[verifier::ext_equal]
pub enum LoadStepView {
    Load(LoadRow),
    Loaded,
    Failed(Seq<char>),
}

impl View for LoadStep {
    type V = LoadStepView;

    open spec fn view(&self) -> LoadStepView {
        match self {
            LoadStep::Load(item) => LoadStepView::Load(item@),
            LoadStep::Loaded => LoadStepView::Loaded,
            LoadStep::Failed(reason) => LoadStepView::Failed(reason@),
        }
    }
}

/// The loading of a plan, given what came of its first steps: the first
/// failure ends it.
pub open spec fn load_progress(plan: Seq<LoadRow>, results: Seq<Result<(), String>>) -> LoadStepView
    decreases plan.len(),
{
    if plan.len() == 0 {
        LoadStepView::Loaded
    } else if results.len() == 0 {
        LoadStepView::Load(plan[0])
    } else {
        match results[0] {
            Ok(()) => load_progress(plan.skip(1), results.skip(1)),
            Err(text) => LoadStepView::Failed(load_failure(plan[0], text@)),
        }
    }
}

/// What to load next, given what came of the first steps of a plan.
pub fn load_step(plan: &[LoadItem], results: &[Result<(), String>]) -> (step: LoadStep)
    ensures
        step@ == load_progress(rows_of(plan@), results@),
{
    let ghost rows = rows_of(plan@);
    let mut i: usize = 0;
    assert(rows.skip(0) =~= rows);
    assert(results@.skip(0) =~= results@);
    while i < plan.len() && i < results.len()
        invariant
            i <= plan@.len(),
            i <= results@.len(),
            rows == rows_of(plan@),
            load_progress(rows.skip(i as int), results@.skip(i as int)) == load_progress(
                rows,
                results@,
            ),
        decreases plan@.len() - i,
    {
        assert(rows.skip(i as int)[0] == plan@[i as int]@);
        assert(results@.skip(i as int)[0] == results@[i as int]);
        if let Err(text) = &results[i] {
            let item: LoadItem = plan[i];
            let head: &str = match item.kind {
                LoadKind::Library => "dlopen ",
                _ => "dlsym ",
            };
            let mut reason: String = joined(head, item.name);
            reason.append(": ");
            reason.append(text.as_str());
            return LoadStep::Failed(reason);
        }
        assert(rows.skip(i as int).skip(1) =~= rows.skip(i + 1));
        assert(results@.skip(i as int).skip(1) =~= results@.skip(i + 1));
        i += 1;
    }
    if i < plan.len() {
        assert(rows.skip(i as int)[0] == plan@[i as int]@);
        LoadStep::Load(plan[i])
    } else {
        LoadStep::Loaded
    }
}

/// What is loaded: first the two libraries, then the symbols, the one of the
/// DRM backend last.
pub proof fn law_libraries_come_first(libraries: Vec<LoadItem>, all: Vec<LoadItem>)
    requires
        call_ensures(framework_plan, (), libraries),
        call_ensures(vtable_plan, (), all),
    ensures
        libraries@.len() == 2,
        libraries@[0]@ == (LoadKind::Library, "libva.so.2"@),
        libraries@[1]@ == (LoadKind::Library, "libva-drm.so.2"@),
        all@.len() == 32,
        all@[0]@ == libraries@[0]@ && all@[1]@ == libraries@[1]@,
        all@[2]@ == (LoadKind::VaSymbol, "vaInitialize"@),
        all@[3]@ == (LoadKind::VaSymbol, "vaTerminate"@),
        all@[30]@ == (LoadKind::VaSymbol, "vaMaxNumImageFormats"@),
        all@[31]@ == (LoadKind::DrmSymbol, "vaGetDisplayDRM"@),
        forall|i: int| 2 <= i < 31 ==> (#[trigger] all@[i]).kind == LoadKind::VaSymbol,
{
    assert(rows_of(libraries@)[0] == libraries@[0]@ && rows_of(libraries@)[1] == libraries@[1]@);
    let rows = rows_of(all@);
    assert(rows.len() == all@.len());
    assert forall|i: int| 0 <= i < 32 implies rows[i] == (#[trigger] all@[i])@ by {}
    assert(rows[0] == all@[0]@ && rows[1] == all@[1]@ && rows[2] == all@[2]@ && rows[3] == all@[3]@
        && rows[30] == all@[30]@ && rows[31] == all@[31]@);
    assert forall|i: int| 2 <= i < 31 implies (#[trigger] all@[i]).kind == LoadKind::VaSymbol by {
        assert(rows[i] == symbol_rows()[i - 2]);
    }
}

/// Every function that is called is loaded under its own name.
pub proof fn law_every_called_symbol_is_loaded(all: Vec<LoadItem>)
    requires
        call_ensures(vtable_plan, (), all),
    ensures
        rows_of(all@).skip(4) =~= seq![
            (LoadKind::VaSymbol, "vaErrorStr"@),
            (LoadKind::VaSymbol, "vaQueryVendorString"@),
            (LoadKind::VaSymbol, "vaMaxNumProfiles"@),
            (LoadKind::VaSymbol, "vaQueryConfigProfiles"@),
            (LoadKind::VaSymbol, "vaCreateConfig"@),
            (LoadKind::VaSymbol, "vaCreateContext"@),
            (LoadKind::VaSymbol, "vaCreateSurfaces"@),
            (LoadKind::VaSymbol, "vaDestroySurfaces"@),
            (LoadKind::VaSymbol, "vaBeginPicture"@),
            (LoadKind::VaSymbol, "vaRenderPicture"@),
            (LoadKind::VaSymbol, "vaEndPicture"@),
            (LoadKind::VaSymbol, "vaCreateBuffer"@),
            (LoadKind::VaSymbol, "vaQueryConfigEntrypoints"@),
            (LoadKind::VaSymbol, "vaGetConfigAttributes"@),
            (LoadKind::VaSymbol, "vaDestroyConfig"@),
            (LoadKind::VaSymbol, "vaDestroyContext"@),
            (LoadKind::VaSymbol, "vaSyncSurface"@),
            (LoadKind::VaSymbol, "vaDestroyBuffer"@),
            (LoadKind::VaSymbol, "vaMapBuffer"@),
            (LoadKind::VaSymbol, "vaUnmapBuffer"@),
            (LoadKind::VaSymbol, "vaDeriveImage"@),
            (LoadKind::VaSymbol, "vaDestroyImage"@),
            (LoadKind::VaSymbol, "vaGetImage"@),
            (LoadKind::VaSymbol, "vaPutImage"@),
            (LoadKind::VaSymbol, "vaCreateImage"@),
            (LoadKind::VaSymbol, "vaQueryImageFormats"@),
            (LoadKind::VaSymbol, "vaMaxNumImageFormats"@),
            (LoadKind::DrmSymbol, "vaGetDisplayDRM"@),
        ],
{
}

proof fn lemma_progress(plan: Seq<LoadRow>, results: Seq<Result<(), String>>, k: int)
    requires
        0 <= k <= results.len(),
        k <= plan.len(),
        forall|i: int| 0 <= i < k ==> (#[trigger] results[i]) is Ok,
        k == results.len() || k == plan.len() || results[k] is Err,
    ensures
        load_progress(plan, results) == if k == plan.len() {
            LoadStepView::Loaded
        } else if k == results.len() {
            LoadStepView::Load(plan[k])
        } else {
            LoadStepView::Failed(load_failure(plan[k], results[k]->Err_0@))
        },
    decreases plan.len(),
{
    if k > 0 {
        let (rest, later) = (plan.skip(1), results.skip(1));
        assert forall|i: int| 0 <= i < k - 1 implies (#[trigger] later[i]) is Ok by {
            assert(later[i] == results[i + 1]);
        }
        if k < results.len() {
            assert(later[k - 1] == results[k]);
        }
        if k < plan.len() {
            assert(rest[k - 1] == plan[k]);
        }
        lemma_progress(rest, later, k - 1);
        assert(results[0] is Ok);
    }
}

/// Where the first `k` steps went well and no more is known, the step `k` is
/// next; where it failed that is reported, as a `dlopen` of a library or a
/// `dlsym` of a symbol; and where all steps went well everything is loaded.
pub proof fn law_loading_goes_to_the_first_failure(
    plan: &[LoadItem],
    results: &[Result<(), String>],
    step: LoadStep,
    k: int,
)
    requires
        call_ensures(load_step, (plan, results), step),
        0 <= k <= results@.len(),
        k <= plan@.len(),
        forall|i: int| 0 <= i < k ==> (#[trigger] results@[i]) is Ok,
        k == results@.len() || k == plan@.len() || results@[k] is Err,
    ensures
        step is Loaded <==> k == plan@.len(),
        step is Load <==> k < plan@.len() && k == results@.len(),
        step matches LoadStep::Load(item) ==> item@ == plan@[k]@,
        step matches LoadStep::Failed(reason) ==> k < plan@.len() && k < results@.len() && (
        results@[k] matches Err(text) && reason@ == (if plan@[k].kind == LoadKind::Library {
            "dlopen "@
        } else {
            "dlsym "@
        }) + plan@[k].name@ + ": "@ + text@),
{
    lemma_progress(rows_of(plan@), results@, k);
    if k < plan@.len() {
        assert(rows_of(plan@)[k] == plan@[k]@);
    }
}

} // verus!
