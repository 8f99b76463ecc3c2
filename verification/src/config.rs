//! Driver configurations: a profile and an entrypoint that the driver
//! accepted together, and the attributes of such a pair.

use vstd::prelude::*;

use crate::error::VaError;
use crate::error::VaErrorView;
use crate::sys::attrib;
use crate::sys::release_views;
use crate::sys::CallReply;
use crate::sys::Release;
use crate::sys::ReleaseView;
use crate::sys::VAConfigAttrib;
use crate::sys::VAConfigID;
use crate::sys::VADisplay;
use crate::sys::VA_ATTRIB_NOT_SUPPORTED;

verus! {

/// What a [`Config`] holds.
pub struct ConfigView {
    pub dpy: VADisplay,
    pub id: VAConfigID,
    pub profile: i32,
    pub entrypoint: i32,
}

/// A configuration handle, with the pair it was made for.
pub struct Config {
    dpy: VADisplay,
    id: VAConfigID,
    profile: i32,
    entrypoint: i32,
}

impl View for Config {
    type V = ConfigView;

    closed spec fn view(&self) -> ConfigView {
        ConfigView {
            dpy: self.dpy,
            id: self.id,
            profile: self.profile,
            entrypoint: self.entrypoint,
        }
    }
}

impl Config {
    /// The configuration of a pair, given the reply to `vaCreateConfig` and
    /// the handle it returned.
    pub fn new(
        dpy: VADisplay,
        profile: i32,
        entrypoint: i32,
        call: CallReply,
        id: VAConfigID,
    ) -> (config: Result<Self, VaError>)
        ensures
            match config {
                Ok(config) => call.ok() && config@ == (ConfigView { dpy, id, profile, entrypoint }),
                Err(error) => !call.ok() && error@ == call.failure(),
            },
    {
        call.check()?;
        Ok(Config { dpy, id, profile, entrypoint })
    }

    /// The configuration handle.
    pub fn id(&self) -> (id: VAConfigID)
        ensures
            id == self@.id,
    {
        self.id
    }

    /// The profile that the configuration was made for.
    pub fn profile(&self) -> (profile: i32)
        ensures
            profile == self@.profile,
    {
        self.profile
    }

    /// The entrypoint that the configuration was made for.
    pub fn entrypoint(&self) -> (entrypoint: i32)
        ensures
            entrypoint == self@.entrypoint,
    {
        self.entrypoint
    }

    /// The call that asks for the value of one attribute of this pair.
    pub fn attribute_query(&self) -> (query: AttributeQuery)
        ensures
            query == (AttributeQuery {
                dpy: self@.dpy,
                profile: self@.profile,
                entrypoint: self@.entrypoint,
            }),
    {
        AttributeQuery { dpy: self.dpy, profile: self.profile, entrypoint: self.entrypoint }
    }

    /// The value of one attribute of this pair; see [`get_attribute`].
    pub fn get_attribute(&self, call: CallReply, value: u32) -> (attribute: Result<
        Option<u32>,
        VaError,
    >)
        ensures
            match attribute {
                Ok(attribute) => call.ok() && attribute == attribute_value(value),
                Err(error) => !call.ok() && error@ == call.failure(),
            },
    {
        get_attribute(call, value)
    }

    /// The supported attributes of this pair; see [`supported_attributes`].
    pub fn supported_attributes(&self, call: CallReply, list: &[VAConfigAttrib]) -> (supported:
        Result<Vec<VAConfigAttrib>, VaError>)
        ensures
            match supported {
                Ok(supported) => call.ok() && supported@ == supported_of(list@),
                Err(error) => !call.ok() && error@ == call.failure(),
            },
    {
        supported_attributes(call, list)
    }

    /// The calls that give the configuration back.
    pub fn releases(&self) -> (releases: Vec<Release>)
        ensures
            release_views(releases@) == seq![ReleaseView::DestroyConfig(self@.id)],
    {
        let mut releases: Vec<Release> = Vec::new();
        releases.push(Release::DestroyConfig(self.id));
        assert(release_views(releases@) =~= seq![ReleaseView::DestroyConfig(self@.id)]);
        releases
    }
}

/// The pair whose attributes `vaGetConfigAttributes` is asked for.
#[derive(Clone, Copy, Debug, PartialEq, Eq, Structural)]
pub struct AttributeQuery {
    pub dpy: VADisplay,
    pub profile: i32,
    pub entrypoint: i32,
}

/// An attribute value; `None` for the value that means "not supported".
pub open spec fn attribute_value(value: u32) -> Option<u32> {
    if value == VA_ATTRIB_NOT_SUPPORTED {
        None
    } else {
        Some(value)
    }
}

/// The attributes whose value is not "not supported", in order.
pub open spec fn supported_of(list: Seq<VAConfigAttrib>) -> Seq<VAConfigAttrib> {
    list.filter(|attribute: VAConfigAttrib| attribute.value != VA_ATTRIB_NOT_SUPPORTED)
}

/// The value of one attribute, given the reply to `vaGetConfigAttributes` and
/// the value it left; `None` where the driver does not support it.
pub fn get_attribute(call: CallReply, value: u32) -> (attribute: Result<Option<u32>, VaError>)
    ensures
        match attribute {
            Ok(attribute) => call.ok() && attribute == attribute_value(value),
            Err(error) => !call.ok() && error@ == call.failure(),
        },
{
    call.check()?;
    if value == VA_ATTRIB_NOT_SUPPORTED {
        Ok(None)
    } else {
        Ok(Some(value))
    }
}

/// The types in the attribute shortlist, in order.
pub open spec fn shortlist_types() -> Seq<i32> {
    seq![
        attrib::VAConfigAttribRTFormat,
        attrib::VAConfigAttribDecSliceMode,
        attrib::VAConfigAttribMaxPictureWidth,
        attrib::VAConfigAttribMaxPictureHeight,
        attrib::VAConfigAttribRateControl,
    ]
}

/// The attributes to ask a driver for: the portable shortlist, each with the
/// value 0 for the driver to overwrite.
pub fn attribute_shortlist() -> (list: Vec<VAConfigAttrib>)
    ensures
        list@ == shortlist_types().map_values(|ty: i32| VAConfigAttrib { ty, value: 0 }),
{
    let mut list: Vec<VAConfigAttrib> = Vec::new();
    list.push(VAConfigAttrib { ty: attrib::VAConfigAttribRTFormat, value: 0 });
    list.push(VAConfigAttrib { ty: attrib::VAConfigAttribDecSliceMode, value: 0 });
    list.push(VAConfigAttrib { ty: attrib::VAConfigAttribMaxPictureWidth, value: 0 });
    list.push(VAConfigAttrib { ty: attrib::VAConfigAttribMaxPictureHeight, value: 0 });
    list.push(VAConfigAttrib { ty: attrib::VAConfigAttribRateControl, value: 0 });
    assert(list@ =~= shortlist_types().map_values(|ty: i32| VAConfigAttrib { ty, value: 0 }));
    list
}

/// The attributes that the driver supports, given the reply to
/// `vaGetConfigAttributes` and the shortlist as the driver filled it in.
pub fn supported_attributes(call: CallReply, list: &[VAConfigAttrib]) -> (supported: Result<
    Vec<VAConfigAttrib>,
    VaError,
>)
    ensures
        match supported {
            Ok(supported) => call.ok() && supported@ == supported_of(list@),
            Err(error) => !call.ok() && error@ == call.failure(),
        },
{
    call.check()?;
    let mut supported: Vec<VAConfigAttrib> = Vec::new();
    let mut i: usize = 0;
    proof {
        reveal(Seq::filter);
    }
    while i < list.len()
        invariant
            i <= list@.len(),
            supported@ == supported_of(list@.take(i as int)),
        decreases list@.len() - i,
    {
        proof {
            reveal(Seq::filter);
        }
        assert(list@.take(i + 1).drop_last() =~= list@.take(i as int));
        if list[i].value != VA_ATTRIB_NOT_SUPPORTED {
            supported.push(list[i]);
        }
        i += 1;
    }
    assert(list@.take(i as int) =~= list@);
    Ok(supported)
}

/// A configuration is made exactly by a call that succeeded, for the pair that
/// was asked for.
pub proof fn law_configurations_keep_their_pair(
    dpy: VADisplay,
    profile: i32,
    entrypoint: i32,
    call: CallReply,
    id: VAConfigID,
    config: Result<Config, VaError>,
)
    requires
        call_ensures(Config::new, (dpy, profile, entrypoint, call, id), config),
    ensures
        config is Ok <==> call.status == 0,
        config matches Ok(config) ==> config@.dpy == dpy && config@.id == id && config@.profile
            == profile && config@.entrypoint == entrypoint,
        config matches Err(error) ==> error@ == (VaErrorView::Va {
            status: call.status,
            message: call.message(),
        }),
{
}

/// The getters and the release of a configuration.
pub proof fn law_configurations_tell_their_parts(
    config: &Config,
    id: VAConfigID,
    profile: i32,
    entrypoint: i32,
    query: AttributeQuery,
    releases: Vec<Release>,
)
    requires
        call_ensures(Config::id, (config,), id),
        call_ensures(Config::profile, (config,), profile),
        call_ensures(Config::entrypoint, (config,), entrypoint),
        call_ensures(Config::attribute_query, (config,), query),
        call_ensures(Config::releases, (config,), releases),
    ensures
        config@.id == id && config@.profile == profile && config@.entrypoint == entrypoint,
        query.dpy == config@.dpy && query.profile == profile && query.entrypoint == entrypoint,
        releases@.len() == 1,
        releases@[0]@ == ReleaseView::DestroyConfig(id),
{
    assert(release_views(releases@).len() == releases@.len());
    assert(release_views(releases@)[0] == releases@[0]@);
}

/// An attribute is known exactly where the call succeeded, and has the value
/// that the driver left unless that is 0x8000_0000.
pub proof fn law_attributes_are_what_the_driver_left(
    config: &Config,
    call: CallReply,
    value: u32,
    free: Result<Option<u32>, VaError>,
    bound: Result<Option<u32>, VaError>,
)
    requires
        call_ensures(get_attribute, (call, value), free),
        call_ensures(Config::get_attribute, (config, call, value), bound),
    ensures
        free is Ok <==> call.status == 0,
        bound is Ok <==> call.status == 0,
        free matches Ok(attribute) ==> attribute == (if value == 0x8000_0000 {
            None
        } else {
            Some(value)
        }),
        bound matches Ok(attribute) ==> attribute == (if value == 0x8000_0000 {
            None
        } else {
            Some(value)
        }),
        free matches Err(error) ==> error@ == call.failure(),
        bound matches Err(error) ==> error@ == call.failure(),
{
}

/// The shortlist asks for the surface formats (0), the slice mode (6), the
/// largest width (18) and height (19) and the rate control (5), in this order.
pub proof fn law_shortlist(list: Vec<VAConfigAttrib>)
    requires
        call_ensures(attribute_shortlist, (), list),
    ensures
        list@.len() == 5,
        list@[0].ty == 0 && list@[1].ty == 6 && list@[2].ty == 18 && list@[3].ty == 19
            && list@[4].ty == 5,
        forall|i: int| 0 <= i < 5 ==> (#[trigger] list@[i]).value == 0,
{
}

proof fn lemma_supported(list: Seq<VAConfigAttrib>, attribute: VAConfigAttrib)
    ensures
        supported_of(list).contains(attribute) <==> list.contains(attribute) && attribute.value
            != 0x8000_0000,
        supported_of(list).len() <= list.len(),
    decreases list.len(),
{
    reveal(Seq::filter);
    let kept = supported_of(list);
    if list.len() > 0 {
        let rest = list.drop_last();
        let before = supported_of(rest);
        lemma_supported(rest, attribute);
        assert(kept =~= before + if list.last().value != 0x8000_0000 {
            seq![list.last()]
        } else {
            seq![]
        });
        if kept.contains(attribute) {
            let k = choose|k: int| 0 <= k < kept.len() && kept[k] == attribute;
            if k < before.len() {
                assert(before[k] == attribute);
                let j = choose|j: int| 0 <= j < rest.len() && rest[j] == attribute;
                assert(list[j] == attribute);
            } else {
                assert(list[list.len() - 1] == attribute);
            }
        }
        if list.contains(attribute) && attribute.value != 0x8000_0000 {
            let j = choose|j: int| 0 <= j < list.len() && list[j] == attribute;
            if j < rest.len() {
                assert(rest[j] == attribute);
                let k = choose|k: int| 0 <= k < before.len() && before[k] == attribute;
                assert(kept[k] == attribute);
            } else {
                assert(kept[before.len() as int] == attribute);
            }
        }
    }
}

/// An attribute of the list is kept exactly where its value is not
/// 0x8000_0000; a failed call keeps none.
pub proof fn law_supported_attributes_are_kept(
    call: CallReply,
    list: &[VAConfigAttrib],
    supported: Result<Vec<VAConfigAttrib>, VaError>,
    attribute: VAConfigAttrib,
)
    requires
        call_ensures(supported_attributes, (call, list), supported),
    ensures
        supported is Ok <==> call.status == 0,
        supported matches Ok(kept) ==> (kept@.contains(attribute) <==> list@.contains(attribute)
            && attribute.value != 0x8000_0000),
        supported matches Err(error) ==> error@ == call.failure(),
{
    lemma_supported(list@, attribute);
}

/// Attributes that are kept stay in their order: two lists keep what each of
/// them does.
pub proof fn law_supported_attributes_keep_their_order(
    first: Seq<VAConfigAttrib>,
    second: Seq<VAConfigAttrib>,
)
    ensures
        supported_of(first + second) == supported_of(first) + supported_of(second),
    decreases second.len(),
{
    reveal(Seq::filter);
    if second.len() == 0 {
        assert(first + second =~= first);
        assert(supported_of(first) + supported_of(second) =~= supported_of(first));
    } else {
        law_supported_attributes_keep_their_order(first, second.drop_last());
        assert((first + second).drop_last() =~= first + second.drop_last());
        assert(supported_of(first + second) =~= supported_of(first) + supported_of(second));
    }
}

/// What a configuration says of its attributes is what the calls left.
pub proof fn law_configurations_keep_supported_attributes(
    config: &Config,
    call: CallReply,
    list: &[VAConfigAttrib],
    free: Result<Vec<VAConfigAttrib>, VaError>,
    bound: Result<Vec<VAConfigAttrib>, VaError>,
)
    requires
        call_ensures(supported_attributes, (call, list), free),
        call_ensures(Config::supported_attributes, (config, call, list), bound),
    ensures
        free is Ok <==> call.status == 0,
        bound is Ok <==> call.status == 0,
        free matches Ok(kept) ==> (bound matches Ok(same) && same@ == kept@ && kept@
            == supported_of(list@)),
        bound matches Err(error) ==> error@ == call.failure(),
{
}

} // verus!
