//! Merging the layers of a rule's specs.

use vstd::prelude::*;

use crate::ip::IpAddressType;
use crate::structs::{LayerModel, SpecModel, SpecYaml};
use crate::text::{cat3, cat4, clone_list, listed};

verus! {

/// The fully resolved configuration of a node, produced by merging one or
/// more layers left-to-right.
#[derive(Debug, Clone)]
pub struct MergedSpec {
    pub machine_type: String,
    pub boot_disk_image: String,
    pub boot_disk_size: u64,
    /// [`IpAddressType::Private`] when no layer sets it.
    pub ip_address: IpAddressType,
    pub ssh_public_key: String,
    pub script: String,
    pub user: String,
    pub control_plane_endpoint: Option<String>,
    /// The SANs of every layer, in order, each listed where it is first seen.
    pub cert_sans: Vec<String>,
}

/// A field that must be set by some layer.
#[derive(Debug, Clone, Copy, PartialEq, Eq, Structural)]
pub enum RequiredField {
    MachineType,
    BootDiskImage,
    BootDiskSize,
    SshPublicKey,
    Script,
    User,
}

/// Why specs could not be merged.
#[derive(Debug)]
pub enum MergeError {
    /// No spec of this name has a configuration.
    UnknownSpec(String),
    /// None of the listed specs sets the field.
    Missing(RequiredField, Vec<String>),
}

// ---------------------------------------------------------------------------
// Models
// ---------------------------------------------------------------------------

pub struct MergedModel {
    pub machine_type: Seq<char>,
    pub boot_disk_image: Seq<char>,
    pub boot_disk_size: u64,
    pub ip_address: IpAddressType,
    pub ssh_public_key: Seq<char>,
    pub script: Seq<char>,
    pub user: Seq<char>,
    pub control_plane_endpoint: Option<Seq<char>>,
    pub cert_sans: Seq<Seq<char>>,
}

pub enum MergeFault {
    UnknownSpec(Seq<char>),
    Missing(RequiredField, Seq<Seq<char>>),
}

impl DeepView for MergedSpec {
    type V = MergedModel;

    open spec fn deep_view(&self) -> MergedModel {
        MergedModel {
            machine_type: self.machine_type@,
            boot_disk_image: self.boot_disk_image@,
            boot_disk_size: self.boot_disk_size,
            ip_address: self.ip_address,
            ssh_public_key: self.ssh_public_key@,
            script: self.script@,
            user: self.user@,
            control_plane_endpoint: self.control_plane_endpoint.deep_view(),
            cert_sans: self.cert_sans.deep_view(),
        }
    }
}

impl DeepView for MergeError {
    type V = MergeFault;

    open spec fn deep_view(&self) -> MergeFault {
        match *self {
            MergeError::UnknownSpec(name) => MergeFault::UnknownSpec(name@),
            MergeError::Missing(field, names) => MergeFault::Missing(field, names.deep_view()),
        }
    }
}

/// What the outcome of a merge reads as.
pub open spec fn merge_outcome(r: Result<MergedSpec, MergeError>) -> Result<MergedModel, MergeFault> {
    match r {
        Ok(m) => Ok(m.deep_view()),
        Err(e) => Err(e.deep_view()),
    }
}

/// The first configuration entry of the last spec called `name` that has one.
pub open spec fn find_layer(specs: Seq<SpecModel>, name: Seq<char>) -> Option<LayerModel>
    decreases specs.len(),
{
    if specs.len() == 0 {
        None
    } else if specs.last().name == name && specs.last().config.len() > 0 {
        Some(specs.last().config[0])
    } else {
        find_layer(specs.drop_last(), name)
    }
}

/// The layers that `names` stand for, or the first name that stands for none.
pub open spec fn layers_of(names: Seq<Seq<char>>, specs: Seq<SpecModel>) -> Result<
    Seq<LayerModel>,
    Seq<char>,
>
    decreases names.len(),
{
    if names.len() == 0 {
        Ok(Seq::empty())
    } else {
        match layers_of(names.drop_last(), specs) {
            Err(unknown) => Err(unknown),
            Ok(layers) => match find_layer(specs, names.last()) {
                None => Err(names.last()),
                Some(layer) => Ok(layers.push(layer)),
            },
        }
    }
}

/// `later` where it is set, else `earlier`.
pub open spec fn latest<T>(earlier: Option<T>, later: Option<T>) -> Option<T> {
    match later {
        Some(v) => Some(v),
        None => earlier,
    }
}

/// A layer that sets nothing.
pub open spec fn blank_layer() -> LayerModel {
    LayerModel {
        ssh_public_key: None,
        script: None,
        user: None,
        control_plane_endpoint: None,
        cert_sans: Seq::empty(),
        machine_type: None,
        boot_disk_image: None,
        boot_disk_size: None,
        ip_address: None,
    }
}

/// Two layers as one: the later wins for any field both set, and the SANs of
/// both are listed.
pub open spec fn overlay(earlier: LayerModel, later: LayerModel) -> LayerModel {
    LayerModel {
        ssh_public_key: latest(earlier.ssh_public_key, later.ssh_public_key),
        script: latest(earlier.script, later.script),
        user: latest(earlier.user, later.user),
        control_plane_endpoint: latest(earlier.control_plane_endpoint, later.control_plane_endpoint),
        cert_sans: earlier.cert_sans + later.cert_sans,
        machine_type: latest(earlier.machine_type, later.machine_type),
        boot_disk_image: latest(earlier.boot_disk_image, later.boot_disk_image),
        boot_disk_size: latest(earlier.boot_disk_size, later.boot_disk_size),
        ip_address: latest(earlier.ip_address, later.ip_address),
    }
}

/// All layers as one, merged left-to-right.
pub open spec fn overlaid(layers: Seq<LayerModel>) -> LayerModel
    decreases layers.len(),
{
    if layers.len() == 0 {
        blank_layer()
    } else {
        overlay(overlaid(layers.drop_last()), layers.last())
    }
}

/// The entries of `s`, each kept where it is first seen.
pub open spec fn first_seen(s: Seq<Seq<char>>) -> Seq<Seq<char>>
    decreases s.len(),
{
    if s.len() == 0 {
        Seq::empty()
    } else {
        let kept = first_seen(s.drop_last());
        if kept.contains(s.last()) {
            kept
        } else {
            kept.push(s.last())
        }
    }
}

/// The required field that `layer` lacks; where it lacks several, the first
/// of them in the order of the cases below.
pub open spec fn first_missing(layer: LayerModel) -> Option<RequiredField> {
    if layer.machine_type is None {
        Some(RequiredField::MachineType)
    } else if layer.boot_disk_image is None {
        Some(RequiredField::BootDiskImage)
    } else if layer.boot_disk_size is None {
        Some(RequiredField::BootDiskSize)
    } else if layer.ssh_public_key is None {
        Some(RequiredField::SshPublicKey)
    } else if layer.script is None {
        Some(RequiredField::Script)
    } else if layer.user is None {
        Some(RequiredField::User)
    } else {
        None
    }
}

/// The node configuration that a layer with every required field stands for.
pub open spec fn completed(layer: LayerModel) -> MergedModel {
    MergedModel {
        machine_type: layer.machine_type->0,
        boot_disk_image: layer.boot_disk_image->0,
        boot_disk_size: layer.boot_disk_size->0,
        ip_address: match layer.ip_address {
            Some(ip) => ip,
            None => IpAddressType::Private,
        },
        ssh_public_key: layer.ssh_public_key->0,
        script: layer.script->0,
        user: layer.user->0,
        control_plane_endpoint: layer.control_plane_endpoint,
        cert_sans: first_seen(layer.cert_sans),
    }
}

/// The outcome of merging the specs called `names`.
pub open spec fn merged(names: Seq<Seq<char>>, specs: Seq<SpecModel>) -> Result<
    MergedModel,
    MergeFault,
> {
    match layers_of(names, specs) {
        Err(unknown) => Err(MergeFault::UnknownSpec(unknown)),
        Ok(layers) => match first_missing(overlaid(layers)) {
            Some(field) => Err(MergeFault::Missing(field, names)),
            None => Ok(completed(overlaid(layers))),
        },
    }
}

/// The configuration key of a required field.
pub open spec fn field_name(field: RequiredField) -> Seq<char> {
    match field {
        RequiredField::MachineType => "machine-type"@,
        RequiredField::BootDiskImage => "boot-disk-image"@,
        RequiredField::BootDiskSize => "boot-disk-size"@,
        RequiredField::SshPublicKey => "ssh-public-key"@,
        RequiredField::Script => "script"@,
        RequiredField::User => "user"@,
    }
}

/// How the standard library's `Debug` shows a list of strings: in brackets,
/// quoted and escaped.
pub uninterp spec fn debug_list(names: Seq<Seq<char>>) -> Seq<char>;

/// The message of a merge error.
pub open spec fn merge_message(e: MergeFault) -> Seq<char> {
    match e {
        MergeFault::UnknownSpec(name) => "Rule references unknown spec '"@ + name + "'"@,
        MergeFault::Missing(field, names) => "No '"@ + field_name(field)
            + "' found after merging specs "@ + debug_list(names),
    }
}

// ---------------------------------------------------------------------------
// Laws
// ---------------------------------------------------------------------------

/// The message of a merge error names the spec that is not there, or the field
/// that none of the specs sets as it stands in a configuration.
pub proof fn law_merge_error_names_its_cause(error: MergeError, r: String)
    requires
        call_ensures(MergeError::message, (&error,), r),
    ensures
        match error {
            MergeError::UnknownSpec(name) => r@ == "Rule references unknown spec '"@ + name@ + "'"@,
            MergeError::Missing(field, names) => r@ == "No '"@ + (match field {
                RequiredField::MachineType => "machine-type"@,
                RequiredField::BootDiskImage => "boot-disk-image"@,
                RequiredField::BootDiskSize => "boot-disk-size"@,
                RequiredField::SshPublicKey => "ssh-public-key"@,
                RequiredField::Script => "script"@,
                RequiredField::User => "user"@,
            }) + "' found after merging specs "@ + debug_list(names.deep_view()),
        },
{
}

/// Overlaying is associative, so it does not matter how a list of layers is
/// grouped.
proof fn lemma_overlaid_append(a: Seq<LayerModel>, b: Seq<LayerModel>)
    ensures
        overlaid(a + b) == overlay(overlaid(a), overlaid(b)),
    decreases b.len(),
{
    if b.len() == 0 {
        assert(a + b =~= a);
        assert(overlaid(a).cert_sans + Seq::<Seq<char>>::empty() =~= overlaid(a).cert_sans);
    } else {
        assert((a + b).drop_last() =~= a + b.drop_last());
        lemma_overlaid_append(a, b.drop_last());
        assert(overlaid(a).cert_sans + (overlaid(b.drop_last()).cert_sans + b.last().cert_sans)
            =~= (overlaid(a).cert_sans + overlaid(b.drop_last()).cert_sans) + b.last().cert_sans);
    }
}

/// Later layers win: a field that the last layer sets has the last layer's
/// value, and a field that it does not set keeps the value it had.
pub proof fn law_last_layer_wins(layers: Seq<LayerModel>, last: LayerModel)
    ensures
        overlaid(layers.push(last)).machine_type == latest(overlaid(layers).machine_type, last.machine_type),
        overlaid(layers.push(last)).boot_disk_image == latest(overlaid(layers).boot_disk_image, last.boot_disk_image),
        overlaid(layers.push(last)).boot_disk_size == latest(overlaid(layers).boot_disk_size, last.boot_disk_size),
        overlaid(layers.push(last)).ip_address == latest(overlaid(layers).ip_address, last.ip_address),
        overlaid(layers.push(last)).ssh_public_key == latest(overlaid(layers).ssh_public_key, last.ssh_public_key),
        overlaid(layers.push(last)).script == latest(overlaid(layers).script, last.script),
        overlaid(layers.push(last)).user == latest(overlaid(layers).user, last.user),
        overlaid(layers.push(last)).control_plane_endpoint == latest(
            overlaid(layers).control_plane_endpoint,
            last.control_plane_endpoint,
        ),
        overlaid(layers.push(last)).cert_sans == overlaid(layers).cert_sans + last.cert_sans,
{
    assert(layers.push(last).drop_last() =~= layers);
}

/// Keeping first occurrences loses no entry, adds none, and leaves none twice.
pub proof fn law_first_seen(s: Seq<Seq<char>>)
    ensures
        first_seen(s).no_duplicates(),
        forall|x: Seq<char>| #[trigger] first_seen(s).contains(x) <==> s.contains(x),
    decreases s.len(),
{
    if s.len() > 0 {
        let front = s.drop_last();
        law_first_seen(front);
        let kept = first_seen(front);
        assert forall|x: Seq<char>| #[trigger] first_seen(s).contains(x) <==> s.contains(x) by {
            if first_seen(s).contains(x) {
                if kept.contains(x) {
                    assert(front.contains(x));
                    let i = choose|i: int| 0 <= i < front.len() && front[i] == x;
                    assert(s[i] == x);
                } else {
                    assert(x == s.last());
                }
            }
            if s.contains(x) {
                let i = choose|i: int| 0 <= i < s.len() && s[i] == x;
                if i < front.len() {
                    assert(front[i] == x);
                    assert(kept.contains(x));
                    let k = choose|k: int| 0 <= k < kept.len() && kept[k] == x;
                    assert(first_seen(s)[k] == x);
                } else if !kept.contains(x) {
                    assert(first_seen(s)[kept.len() as int] == x);
                }
            }
        }
    }
}

/// Entries that have all been seen already change nothing.
proof fn lemma_first_seen_again(s: Seq<Seq<char>>, again: Seq<Seq<char>>)
    requires
        forall|x: Seq<char>| again.contains(x) ==> s.contains(x),
    ensures
        first_seen(s + again) == first_seen(s),
    decreases again.len(),
{
    if again.len() == 0 {
        assert(s + again =~= s);
    } else {
        let front = again.drop_last();
        assert forall|x: Seq<char>| front.contains(x) implies s.contains(x) by {
            let i = choose|i: int| 0 <= i < front.len() && front[i] == x;
            assert(again[i] == x);
        }
        lemma_first_seen_again(s, front);
        assert((s + again).drop_last() =~= s + front);
        assert(again.contains(again.last()));
        law_first_seen(s);
        assert(first_seen(s).contains(again.last()));
    }
}

/// Listing specs twice over is the same as listing them once.
pub proof fn law_merge_idempotent(layers: Seq<LayerModel>)
    ensures
        first_missing(overlaid(layers + layers)) == first_missing(overlaid(layers)),
        first_missing(overlaid(layers)) is None ==> completed(overlaid(layers + layers)) == completed(
            overlaid(layers),
        ),
{
    lemma_overlaid_append(layers, layers);
    let sans = overlaid(layers).cert_sans;
    lemma_first_seen_again(sans, sans);
}

/// Specs can be merged exactly when every name is known and each required
/// field is set by at least one of the layers.
pub proof fn law_merge_succeeds(names: Seq<Seq<char>>, specs: Seq<SpecModel>)
    ensures
        merged(names, specs) is Ok <==> {
            &&& layers_of(names, specs) is Ok
            &&& exists|i: int| 0 <= i < names.len() && (#[trigger] layers_of(names, specs)->Ok_0[i]).machine_type is Some
            &&& exists|i: int| 0 <= i < names.len() && (#[trigger] layers_of(names, specs)->Ok_0[i]).boot_disk_image is Some
            &&& exists|i: int| 0 <= i < names.len() && (#[trigger] layers_of(names, specs)->Ok_0[i]).boot_disk_size is Some
            &&& exists|i: int| 0 <= i < names.len() && (#[trigger] layers_of(names, specs)->Ok_0[i]).ssh_public_key is Some
            &&& exists|i: int| 0 <= i < names.len() && (#[trigger] layers_of(names, specs)->Ok_0[i]).script is Some
            &&& exists|i: int| 0 <= i < names.len() && (#[trigger] layers_of(names, specs)->Ok_0[i]).user is Some
        },
{
    if let Ok(layers) = layers_of(names, specs) {
        lemma_layers_count(names, specs);
        lemma_set_by_some_layer(layers);
    }
}

proof fn lemma_layers_count(names: Seq<Seq<char>>, specs: Seq<SpecModel>)
    requires
        layers_of(names, specs) is Ok,
    ensures
        layers_of(names, specs)->Ok_0.len() == names.len(),
    decreases names.len(),
{
    if names.len() > 0 {
        lemma_layers_count(names.drop_last(), specs);
    }
}

/// A field of the merged layers is set exactly when some layer sets it.
proof fn lemma_set_by_some_layer(layers: Seq<LayerModel>)
    ensures
        overlaid(layers).machine_type is Some <==> exists|i: int| 0 <= i < layers.len() && (#[trigger] layers[i]).machine_type is Some,
        overlaid(layers).boot_disk_image is Some <==> exists|i: int| 0 <= i < layers.len() && (#[trigger] layers[i]).boot_disk_image is Some,
        overlaid(layers).boot_disk_size is Some <==> exists|i: int| 0 <= i < layers.len() && (#[trigger] layers[i]).boot_disk_size is Some,
        overlaid(layers).ssh_public_key is Some <==> exists|i: int| 0 <= i < layers.len() && (#[trigger] layers[i]).ssh_public_key is Some,
        overlaid(layers).script is Some <==> exists|i: int| 0 <= i < layers.len() && (#[trigger] layers[i]).script is Some,
        overlaid(layers).user is Some <==> exists|i: int| 0 <= i < layers.len() && (#[trigger] layers[i]).user is Some,
    decreases layers.len(),
{
    if layers.len() > 0 {
        let front = layers.drop_last();
        let n = layers.len() - 1;
        lemma_set_by_some_layer(front);
        assert(forall|i: int| 0 <= i < n ==> front[i] == layers[i]);
        assert(layers[n] == layers.last());
    }
}

/// Whether spec `i` is called `name` and has a configuration.
pub open spec fn configures(specs: Seq<SpecModel>, i: int, name: Seq<char>) -> bool {
    0 <= i < specs.len() && specs[i].name == name && specs[i].config.len() > 0
}

/// A name stands for the first configuration entry of the last spec that is
/// called so and has one, and for nothing where there is none.
pub proof fn law_name_stands_for_last_spec(specs: Seq<SpecModel>, name: Seq<char>)
    ensures
        match find_layer(specs, name) {
            Some(layer) => exists|i: int| #[trigger]
                configures(specs, i, name) && layer == specs[i].config[0] && forall|j: int|
                    i < j < specs.len() ==> !#[trigger] configures(specs, j, name),
            None => forall|j: int| !#[trigger] configures(specs, j, name),
        },
    decreases specs.len(),
{
    if specs.len() > 0 {
        let front = specs.drop_last();
        let last = specs.len() - 1;
        law_name_stands_for_last_spec(front, name);
        assert forall|j: int| 0 <= j < last implies #[trigger] configures(specs, j, name) == configures(
            front,
            j,
            name,
        ) by {
            assert(front[j] == specs[j]);
        }
        if configures(specs, last, name) {
            assert(find_layer(specs, name) == Some(specs[last].config[0]));
        } else {
            match find_layer(front, name) {
                Some(layer) => {
                    let i = choose|i: int| #[trigger]
                        configures(front, i, name) && layer == front[i].config[0] && forall|j: int|
                            i < j < front.len() ==> !#[trigger] configures(front, j, name);
                    assert(configures(specs, i, name));
                    assert forall|j: int| i < j < specs.len() implies !#[trigger] configures(specs, j, name) by {
                        if j < last {
                            assert(!configures(front, j, name));
                        }
                    }
                },
                None => {
                    assert forall|j: int| !#[trigger] configures(specs, j, name) by {
                        if 0 <= j < last {
                            assert(!configures(front, j, name));
                        }
                    }
                },
            }
        }
    }
}

/// The layers of a list of names are those that the names stand for, in order.
/// There are none where some name stands for nothing, and that name is the
/// first such one.
pub proof fn law_layers_in_order(names: Seq<Seq<char>>, specs: Seq<SpecModel>, i: int)
    ensures
        match layers_of(names, specs) {
            Ok(layers) => {
                &&& layers.len() == names.len()
                &&& 0 <= i < names.len() ==> find_layer(specs, names[i]) == Some(layers[i])
            },
            Err(unknown) => exists|k: int|
                0 <= k < names.len() && #[trigger] names[k] == unknown && find_layer(specs, unknown) is None
                    && forall|j: int| 0 <= j < k ==> find_layer(specs, #[trigger] names[j]) is Some,
        },
    decreases names.len(),
{
    if names.len() > 0 {
        let front = names.drop_last();
        let last = names.len() - 1;
        law_layers_in_order(front, specs, i);
        match layers_of(front, specs) {
            Err(unknown) => {
                let k = choose|k: int|
                    0 <= k < front.len() && #[trigger] front[k] == unknown && find_layer(specs, unknown) is None
                        && forall|j: int| 0 <= j < k ==> find_layer(specs, #[trigger] front[j]) is Some;
                assert(names[k] == unknown);
                assert forall|j: int| 0 <= j < k implies find_layer(specs, #[trigger] names[j]) is Some by {
                    assert(front[j] == names[j]);
                }
            },
            Ok(_) => {
                assert forall|j: int| 0 <= j < last implies find_layer(specs, #[trigger] names[j]) is Some by {
                    law_layers_in_order(front, specs, j);
                    assert(front[j] == names[j]);
                }
                assert(names[last] == names.last());
            },
        }
    }
}

/// Whether layer `i` gives a field the value `v`, and no layer behind it gives
/// that field any.
pub open spec fn sets_last<T>(layers: Seq<LayerModel>, field: spec_fn(LayerModel) -> Option<T>, i: int, v: T) -> bool {
    &&& 0 <= i < layers.len()
    &&& field(layers[i]) == Some(v)
    &&& forall|j: int| i < j < layers.len() ==> field(#[trigger] layers[j]) is None
}

/// Whether no layer gives a field a value.
pub open spec fn set_by_none<T>(layers: Seq<LayerModel>, field: spec_fn(LayerModel) -> Option<T>) -> bool {
    forall|j: int| 0 <= j < layers.len() ==> field(#[trigger] layers[j]) is None
}

/// Whether a field has the value that the last layer that sets it gives it, and
/// none where no layer does.
pub open spec fn is_last_set<T>(layers: Seq<LayerModel>, field: spec_fn(LayerModel) -> Option<T>, v: Option<T>) -> bool {
    match v {
        Some(x) => exists|i: int| #[trigger] sets_last(layers, field, i, x),
        None => set_by_none(layers, field),
    }
}

proof fn lemma_last_set_grows<T>(
    layers: Seq<LayerModel>,
    field: spec_fn(LayerModel) -> Option<T>,
    before: Option<T>,
    after: Option<T>,
)
    requires
        layers.len() > 0,
        is_last_set(layers.drop_last(), field, before),
        field(layers.last()) is Some ==> after == field(layers.last()),
        field(layers.last()) is None ==> after == before,
    ensures
        is_last_set(layers, field, after),
{
    let front = layers.drop_last();
    let last = layers.len() - 1;
    if let Some(x) = field(layers.last()) {
        assert(sets_last(layers, field, last, x));
    } else if let Some(x) = before {
        let i = choose|i: int| #[trigger] sets_last(front, field, i, x);
        assert forall|j: int| i < j < layers.len() implies field(#[trigger] layers[j]) is None by {
            if j < last {
                assert(front[j] == layers[j]);
            }
        }
        assert(sets_last(layers, field, i, x));
    } else {
        assert forall|j: int| 0 <= j < layers.len() implies field(#[trigger] layers[j]) is None by {
            if j < last {
                assert(front[j] == layers[j]);
            }
        }
    }
}

proof fn lemma_overlaid_takes_last(layers: Seq<LayerModel>)
    ensures
        is_last_set(layers, |l: LayerModel| l.machine_type, overlaid(layers).machine_type),
        is_last_set(layers, |l: LayerModel| l.boot_disk_image, overlaid(layers).boot_disk_image),
        is_last_set(layers, |l: LayerModel| l.boot_disk_size, overlaid(layers).boot_disk_size),
        is_last_set(layers, |l: LayerModel| l.ip_address, overlaid(layers).ip_address),
        is_last_set(layers, |l: LayerModel| l.ssh_public_key, overlaid(layers).ssh_public_key),
        is_last_set(layers, |l: LayerModel| l.script, overlaid(layers).script),
        is_last_set(layers, |l: LayerModel| l.user, overlaid(layers).user),
        is_last_set(layers, |l: LayerModel| l.control_plane_endpoint, overlaid(layers).control_plane_endpoint),
        overlaid(layers).cert_sans == all_sans(layers),
    decreases layers.len(),
{
    if layers.len() > 0 {
        let front = layers.drop_last();
        let a = overlaid(front);
        let b = overlaid(layers);
        lemma_overlaid_takes_last(front);
        lemma_last_set_grows(layers, |l: LayerModel| l.machine_type, a.machine_type, b.machine_type);
        lemma_last_set_grows(layers, |l: LayerModel| l.boot_disk_image, a.boot_disk_image, b.boot_disk_image);
        lemma_last_set_grows(layers, |l: LayerModel| l.boot_disk_size, a.boot_disk_size, b.boot_disk_size);
        lemma_last_set_grows(layers, |l: LayerModel| l.ip_address, a.ip_address, b.ip_address);
        lemma_last_set_grows(layers, |l: LayerModel| l.ssh_public_key, a.ssh_public_key, b.ssh_public_key);
        lemma_last_set_grows(layers, |l: LayerModel| l.script, a.script, b.script);
        lemma_last_set_grows(layers, |l: LayerModel| l.user, a.user, b.user);
        lemma_last_set_grows(
            layers,
            |l: LayerModel| l.control_plane_endpoint,
            a.control_plane_endpoint,
            b.control_plane_endpoint,
        );
    }
}

/// The SANs of all layers, in order.
pub open spec fn all_sans(layers: Seq<LayerModel>) -> Seq<Seq<char>>
    decreases layers.len(),
{
    if layers.len() == 0 {
        Seq::empty()
    } else {
        all_sans(layers.drop_last()) + layers.last().cert_sans
    }
}

/// Every setting of a merged spec is the one of the last layer that has it. The
/// address is private where no layer says which, and there is no endpoint where
/// no layer names one. The SANs are those of all layers, each once and where it
/// is first seen.
pub proof fn law_last_setting_wins(names: Seq<Seq<char>>, specs: Seq<SpecModel>)
    ensures
        merged(names, specs) matches Ok(m) ==> (layers_of(names, specs) matches Ok(layers) && {
            &&& is_last_set(layers, |l: LayerModel| l.machine_type, Some(m.machine_type))
            &&& is_last_set(layers, |l: LayerModel| l.boot_disk_image, Some(m.boot_disk_image))
            &&& is_last_set(layers, |l: LayerModel| l.boot_disk_size, Some(m.boot_disk_size))
            &&& is_last_set(layers, |l: LayerModel| l.ssh_public_key, Some(m.ssh_public_key))
            &&& is_last_set(layers, |l: LayerModel| l.script, Some(m.script))
            &&& is_last_set(layers, |l: LayerModel| l.user, Some(m.user))
            &&& is_last_set(layers, |l: LayerModel| l.ip_address, Some(m.ip_address)) || (
            set_by_none(layers, |l: LayerModel| l.ip_address) && m.ip_address == IpAddressType::Private)
            &&& is_last_set(layers, |l: LayerModel| l.control_plane_endpoint, m.control_plane_endpoint)
            &&& m.cert_sans == first_seen(all_sans(layers))
        }),
{
    if let Ok(layers) = layers_of(names, specs) {
        lemma_overlaid_takes_last(layers);
    }
}

/// A SAN is listed if and only if some layer lists it, and none is listed twice.
pub proof fn law_every_san_merged(names: Seq<Seq<char>>, specs: Seq<SpecModel>, san: Seq<char>)
    ensures
        merged(names, specs) matches Ok(m) ==> (layers_of(names, specs) matches Ok(layers) && {
            &&& m.cert_sans.no_duplicates()
            &&& m.cert_sans.contains(san) <==> exists|i: int|
                0 <= i < layers.len() && (#[trigger] layers[i]).cert_sans.contains(san)
        }),
{
    law_last_setting_wins(names, specs);
    if let Ok(layers) = layers_of(names, specs) {
        law_first_seen(all_sans(layers));
        lemma_all_sans(layers, san);
    }
}

proof fn lemma_all_sans(layers: Seq<LayerModel>, san: Seq<char>)
    ensures
        all_sans(layers).contains(san) <==> exists|i: int|
            0 <= i < layers.len() && (#[trigger] layers[i]).cert_sans.contains(san),
    decreases layers.len(),
{
    if layers.len() > 0 {
        let front = layers.drop_last();
        let last = layers.last().cert_sans;
        let all = all_sans(layers);
        let before = all_sans(front);
        lemma_all_sans(front, san);
        if all.contains(san) {
            let k = choose|k: int| 0 <= k < all.len() && all[k] == san;
            if k < before.len() {
                assert(before[k] == san);
                let i = choose|i: int| 0 <= i < front.len() && (#[trigger] front[i]).cert_sans.contains(san);
                assert(layers[i].cert_sans.contains(san));
            } else {
                assert(last[k - before.len()] == san);
                assert(layers[layers.len() - 1].cert_sans.contains(san));
            }
        }
        if exists|i: int| 0 <= i < layers.len() && (#[trigger] layers[i]).cert_sans.contains(san) {
            let i = choose|i: int| 0 <= i < layers.len() && (#[trigger] layers[i]).cert_sans.contains(san);
            if i < front.len() {
                assert(front[i].cert_sans.contains(san));
                let k = choose|k: int| 0 <= k < before.len() && before[k] == san;
                assert(all[k] == san);
            } else {
                let k = choose|k: int| 0 <= k < last.len() && last[k] == san;
                assert(all[before.len() + k] == san);
            }
        }
    } else {
        assert(!all_sans(layers).contains(san));
    }
}

/// A new entry goes behind those that were seen before, and one that was seen
/// before changes nothing.
pub proof fn law_first_seen_in_order(s: Seq<Seq<char>>, x: Seq<char>)
    ensures
        s.contains(x) ==> first_seen(s.push(x)) == first_seen(s),
        !s.contains(x) ==> first_seen(s.push(x)) == first_seen(s).push(x),
        first_seen(Seq::empty()) == Seq::<Seq<char>>::empty(),
{
    law_first_seen(s);
    assert(s.push(x).drop_last() =~= s);
}

/// What is missing is named: a field that no layer sets, and the names of the
/// specs as they were given. An unknown name is one that stands for nothing.
pub proof fn law_merge_says_what_is_wrong(names: Seq<Seq<char>>, specs: Seq<SpecModel>)
    ensures
        merged(names, specs) matches Err(e) ==> match e {
            MergeFault::UnknownSpec(unknown) => names.contains(unknown) && find_layer(specs, unknown) is None,
            MergeFault::Missing(field, listed) => listed == names && (layers_of(names, specs) matches Ok(layers) && (
            match field {
                RequiredField::MachineType => set_by_none(layers, |l: LayerModel| l.machine_type),
                RequiredField::BootDiskImage => set_by_none(layers, |l: LayerModel| l.boot_disk_image),
                RequiredField::BootDiskSize => set_by_none(layers, |l: LayerModel| l.boot_disk_size),
                RequiredField::SshPublicKey => set_by_none(layers, |l: LayerModel| l.ssh_public_key),
                RequiredField::Script => set_by_none(layers, |l: LayerModel| l.script),
                RequiredField::User => set_by_none(layers, |l: LayerModel| l.user),
            })),
        },
{
    law_layers_in_order(names, specs, 0);
    if let Ok(layers) = layers_of(names, specs) {
        lemma_overlaid_takes_last(layers);
    }
}

// ---------------------------------------------------------------------------
// Code
// ---------------------------------------------------------------------------

/// The `Debug` rendering of a list of strings by the standard library. What
/// it looks like on given strings is left to the standard library.
#[verifier::external_body]
fn show_list(names: &Vec<String>) -> (r: String)
    ensures
        r@ == debug_list(names.deep_view()),
{
    format!("{:?}", names)
}

impl RequiredField {
    /// The configuration key of the field.
    pub fn name(&self) -> (r: String)
        ensures
            r@ == field_name(*self),
    {
        match self {
            RequiredField::MachineType => "machine-type".to_owned(),
            RequiredField::BootDiskImage => "boot-disk-image".to_owned(),
            RequiredField::BootDiskSize => "boot-disk-size".to_owned(),
            RequiredField::SshPublicKey => "ssh-public-key".to_owned(),
            RequiredField::Script => "script".to_owned(),
            RequiredField::User => "user".to_owned(),
        }
    }
}

impl MergeError {
    /// The message for the operator.
    pub fn message(&self) -> (r: String)
        ensures
            r@ == merge_message(self.deep_view()),
    {
        match self {
            MergeError::UnknownSpec(name) => cat3("Rule references unknown spec '", name.as_str(), "'"),
            MergeError::Missing(field, names) => cat4(
                "No '",
                field.name().as_str(),
                "' found after merging specs ",
                show_list(names).as_str(),
            ),
        }
    }
}

/// Find the configuration that `name` stands for.
fn layer_index(specs: &Vec<SpecYaml>, name: &String) -> (r: Option<usize>)
    ensures
        match r {
            Some(i) => i < specs@.len() && specs@[i as int].config@.len() > 0 && find_layer(
                specs.deep_view(),
                name@,
            ) == Some(specs@[i as int].config@[0].deep_view()),
            None => find_layer(specs.deep_view(), name@) is None,
        },
{
    let mut n: usize = specs.len();
    let ghost all = specs.deep_view();
    assert(all.take(n as int) =~= all);
    while n > 0
        invariant
            n <= specs@.len(),
            all == specs.deep_view(),
            find_layer(all, name@) == find_layer(all.take(n as int), name@),
        decreases n,
    {
        assert(all.take(n as int).drop_last() =~= all.take(n - 1));
        assert(all.take(n as int).last() == specs@[n - 1].deep_view());
        if specs[n - 1].name == *name && specs[n - 1].config.len() > 0 {
            return Some(n - 1);
        }
        n = n - 1;
    }
    None
}

/// Merge the specs called `spec_names`, in order, into a single configuration.
///
/// Later entries override earlier ones for scalar fields. The SANs of all
/// layers are listed, each where it is first seen.
pub fn merge_spec_configs(spec_names: &Vec<String>, specs: &Vec<SpecYaml>) -> (r: Result<
    MergedSpec,
    MergeError,
>)
    ensures
        merge_outcome(r) == merged(spec_names.deep_view(), specs.deep_view()),
{
    let mut machine_type: Option<String> = None;
    let mut boot_disk_image: Option<String> = None;
    let mut boot_disk_size: Option<u64> = None;
    let mut ip_address: Option<IpAddressType> = None;
    let mut ssh_public_key: Option<String> = None;
    let mut script: Option<String> = None;
    let mut user: Option<String> = None;
    let mut control_plane_endpoint: Option<String> = None;
    let mut cert_sans: Vec<String> = Vec::new();

    let ghost names = spec_names.deep_view();
    let ghost all = specs.deep_view();
    let ghost mut layers: Seq<LayerModel> = Seq::empty();
    let mut i: usize = 0;
    assert(cert_sans.deep_view() =~= Seq::<Seq<char>>::empty());
    while i < spec_names.len()
        invariant
            i <= spec_names@.len(),
            names == spec_names.deep_view(),
            all == specs.deep_view(),
            layers_of(names.take(i as int), all) == Ok::<Seq<LayerModel>, Seq<char>>(layers),
            machine_type.deep_view() == overlaid(layers).machine_type,
            boot_disk_image.deep_view() == overlaid(layers).boot_disk_image,
            boot_disk_size == overlaid(layers).boot_disk_size,
            ip_address == overlaid(layers).ip_address,
            ssh_public_key.deep_view() == overlaid(layers).ssh_public_key,
            script.deep_view() == overlaid(layers).script,
            user.deep_view() == overlaid(layers).user,
            control_plane_endpoint.deep_view() == overlaid(layers).control_plane_endpoint,
            cert_sans.deep_view() == first_seen(overlaid(layers).cert_sans),
        decreases spec_names@.len() - i,
    {
        let name = &spec_names[i];
        assert(names.take(i + 1).drop_last() =~= names.take(i as int));
        assert(names.take(i + 1).last() == name@);
        let at = match layer_index(specs, name) {
            Some(at) => at,
            None => {
                proof {
                    lemma_unknown_early(names, all, i + 1);
                }
                return Err(MergeError::UnknownSpec(name.clone()));
            },
        };
        let cfg = &specs[at].config[0];
        let ghost layer = cfg.deep_view();
        let ghost before = overlaid(layers);
        proof {
            assert(layers.push(layer).drop_last() =~= layers);
            layers = layers.push(layer);
        }

        if let Some(v) = &cfg.machine_type {
            machine_type = Some(v.clone());
        }
        if let Some(v) = &cfg.boot_disk_image {
            boot_disk_image = Some(v.clone());
        }
        if let Some(v) = cfg.boot_disk_size {
            boot_disk_size = Some(v);
        }
        if let Some(v) = cfg.ip_address {
            ip_address = Some(v);
        }
        if let Some(v) = &cfg.ssh_public_key {
            ssh_public_key = Some(v.clone());
        }
        if let Some(v) = &cfg.script {
            script = Some(v.clone());
        }
        if let Some(v) = &cfg.user {
            user = Some(v.clone());
        }
        if let Some(v) = &cfg.control_plane_endpoint {
            control_plane_endpoint = Some(v.clone());
        }
        match &cfg.api_server {
            Some(api) => {
                add_unseen(&mut cert_sans, &api.cert_sans, Ghost(before.cert_sans));
            },
            None => {
                assert(before.cert_sans + layer.cert_sans =~= before.cert_sans);
            },
        }
        i = i + 1;
    }
    assert(names.take(i as int) =~= names);

    let machine_type = match machine_type {
        Some(v) => v,
        None => return Err(missing(RequiredField::MachineType, spec_names)),
    };
    let boot_disk_image = match boot_disk_image {
        Some(v) => v,
        None => return Err(missing(RequiredField::BootDiskImage, spec_names)),
    };
    let boot_disk_size = match boot_disk_size {
        Some(v) => v,
        None => return Err(missing(RequiredField::BootDiskSize, spec_names)),
    };
    let ssh_public_key = match ssh_public_key {
        Some(v) => v,
        None => return Err(missing(RequiredField::SshPublicKey, spec_names)),
    };
    let script = match script {
        Some(v) => v,
        None => return Err(missing(RequiredField::Script, spec_names)),
    };
    let user = match user {
        Some(v) => v,
        None => return Err(missing(RequiredField::User, spec_names)),
    };
    let ip_address = match ip_address {
        Some(v) => v,
        None => IpAddressType::default(),
    };
    Ok(
        MergedSpec {
            machine_type,
            boot_disk_image,
            boot_disk_size,
            ip_address,
            ssh_public_key,
            script,
            user,
            control_plane_endpoint,
            cert_sans,
        },
    )
}

fn missing(field: RequiredField, spec_names: &Vec<String>) -> (r: MergeError)
    ensures
        r.deep_view() == MergeFault::Missing(field, spec_names.deep_view()),
{
    MergeError::Missing(field, clone_list(spec_names))
}

/// A name that is unknown among the first ones is the one reported for all.
proof fn lemma_unknown_early(names: Seq<Seq<char>>, specs: Seq<SpecModel>, n: int)
    requires
        0 <= n <= names.len(),
        layers_of(names.take(n), specs) is Err,
    ensures
        layers_of(names, specs) == layers_of(names.take(n), specs),
    decreases names.len(),
{
    if n == names.len() {
        assert(names.take(n) =~= names);
    } else {
        assert(names.drop_last().take(n) =~= names.take(n));
        lemma_unknown_early(names.drop_last(), specs, n);
    }
}

/// Add the entries of `more` to `kept`, each where it is first seen.
fn add_unseen(kept: &mut Vec<String>, more: &Vec<String>, Ghost(seen): Ghost<Seq<Seq<char>>>)
    requires
        old(kept).deep_view() == first_seen(seen),
    ensures
        final(kept).deep_view() == first_seen(seen + more.deep_view()),
{
    let mut i: usize = 0;
    let ghost all = more.deep_view();
    assert(seen + all.take(0) =~= seen);
    while i < more.len()
        invariant
            i <= more@.len(),
            all == more.deep_view(),
            kept.deep_view() == first_seen(seen + all.take(i as int)),
        decreases more@.len() - i,
    {
        let ghost next = seen + all.take(i + 1);
        assert(next.drop_last() =~= seen + all.take(i as int));
        assert(next.last() == more@[i as int]@);
        if !listed(kept, more[i].as_str()) {
            let ghost before = kept.deep_view();
            kept.push(more[i].clone());
            assert(kept.deep_view() =~= before.push(more@[i as int]@));
        }
        i = i + 1;
    }
    assert(all.take(i as int) =~= all);
}

} // verus!
