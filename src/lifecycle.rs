use vstd::prelude::*;
use vstd::string::StringSliceAdditionalSpecFns;
use vstd::utf8::encode_utf8;
use crate::device::{BlockDevice, BlockDeviceInterface, opened_record};
use crate::error::{Error, EOK, errno_to_result, lemma_result_round_trip, spec_errno_to_result};
use crate::path::{cstring_bytes, spec_cstring, spec_cstring_dir, to_cstring_dir};

verus! {

/// A device name the engine can key a device by: not empty, and free of
/// NUL bytes, which would cut its NUL-terminated form short.
pub open spec fn valid_name(name: Seq<u8>) -> bool {
    name.len() > 0 && !name.contains(0u8)
}

/// The name table after registering `name`, or the error: invalid argument
/// for a name that is not valid, file-exists for one already registered.
pub open spec fn spec_register(names: Seq<Seq<u8>>, name: Seq<u8>) -> Result<Seq<Seq<u8>>, Error> {
    if !valid_name(name) {
        Err(Error::InvalidArgument)
    } else if names.contains(spec_cstring(name)) {
        Err(Error::FileExists)
    } else {
        Ok(names.push(spec_cstring(name)))
    }
}

/// The table with every entry equal to `key` taken out.
pub open spec fn spec_remove_key(keys: Seq<Seq<u8>>, key: Seq<u8>) -> Seq<Seq<u8>> {
    keys.filter(|k: Seq<u8>| k != key)
}

/// The engine's tables: the names under which devices are registered and
/// the mount points in use, each in its NUL-terminated form.
pub struct DeviceRegistry {
    names: Vec<Vec<u8>>,
    mounts: Vec<Vec<u8>>,
}

/// Compares two byte strings.
fn bytes_eq(a: &Vec<u8>, b: &Vec<u8>) -> (r: bool)
    ensures
        r == (a@ == b@),
{
    if a.len() != b.len() {
        return false;
    }
    let mut i: usize = 0;
    while i < a.len()
        invariant
            i <= a@.len(),
            a@.len() == b@.len(),
            forall|k: int| 0 <= k < i ==> a@[k] == b@[k],
        decreases a@.len() - i,
    {
        if a[i] != b[i] {
            return false;
        }
        i = i + 1;
    }
    assert(a@ =~= b@);
    true
}

/// Whether `key` is one of `keys`.
fn contains_key(keys: &Vec<Vec<u8>>, key: &Vec<u8>) -> (r: bool)
    ensures
        r == keys@.map_values(|k: Vec<u8>| k@).contains(key@),
{
    let ghost view = keys@.map_values(|k: Vec<u8>| k@);
    let mut i: usize = 0;
    while i < keys.len()
        invariant
            i <= keys@.len(),
            view == keys@.map_values(|k: Vec<u8>| k@),
            forall|k: int| 0 <= k < i ==> view[k] != key@,
        decreases keys@.len() - i,
    {
        if bytes_eq(&keys[i], key) {
            assert(view[i as int] == key@);
            return true;
        }
        i = i + 1;
    }
    assert(!view.contains(key@));
    false
}

/// Takes every entry equal to `key` out of `keys`, keeping the others in order.
fn remove_key(keys: &mut Vec<Vec<u8>>, key: &Vec<u8>)
    ensures
        final(keys)@.map_values(|k: Vec<u8>| k@) == spec_remove_key(
            old(keys)@.map_values(|k: Vec<u8>| k@),
            key@,
        ),
{
    let ghost before = old(keys)@.map_values(|k: Vec<u8>| k@);
    let mut kept: Vec<Vec<u8>> = Vec::new();
    let mut i: usize = 0;
    while i < keys.len()
        invariant
            i <= keys@.len(),
            before == keys@.map_values(|k: Vec<u8>| k@),
            kept@.map_values(|k: Vec<u8>| k@) == spec_remove_key(before.subrange(0, i as int), key@),
        decreases keys@.len() - i,
    {
        let ghost prefix = before.subrange(0, i as int);
        proof {
            reveal_with_fuel(Seq::filter, 1);
            assert(before.subrange(0, i + 1).drop_last() =~= prefix);
            assert(before.subrange(0, i + 1).last() == before[i as int]);
        }
        if !bytes_eq(&keys[i], key) {
            kept.push(keys[i].clone());
            assert(kept@.map_values(|k: Vec<u8>| k@) =~= spec_remove_key(before.subrange(0, i + 1), key@));
        }
        i = i + 1;
    }
    assert(before.subrange(0, before.len() as int) == before);
    *keys = kept;
}

impl DeviceRegistry {
    /// The registered names, NUL-terminated.
    pub closed spec fn spec_names(&self) -> Seq<Seq<u8>> {
        self.names@.map_values(|k: Vec<u8>| k@)
    }

    /// The mount points in use, in the engine's directory form.
    pub closed spec fn spec_mounts(&self) -> Seq<Seq<u8>> {
        self.mounts@.map_values(|k: Vec<u8>| k@)
    }

    /// No name is registered twice and no mount point is in use twice.
    pub open spec fn wf(&self) -> bool {
        self.spec_names().no_duplicates() && self.spec_mounts().no_duplicates()
    }

    /// An empty registry: no device registered, nothing mounted.
    pub fn new() -> (r: DeviceRegistry)
        ensures
            r.wf(),
            r.spec_names() == Seq::<Seq<u8>>::empty(),
            r.spec_mounts() == Seq::<Seq<u8>>::empty(),
    {
        let r = DeviceRegistry { names: Vec::new(), mounts: Vec::new() };
        assert(r.spec_names() =~= Seq::<Seq<u8>>::empty());
        assert(r.spec_mounts() =~= Seq::<Seq<u8>>::empty());
        r
    }

    /// Whether a device is registered under `name`.
    pub fn is_registered(&self, name: &str) -> (r: bool)
        ensures
            r == self.spec_names().contains(spec_cstring(name.spec_bytes())),
    {
        let key = cstring_bytes(name);
        contains_key(&self.names, &key)
    }

    /// The number of registered devices.
    pub fn device_count(&self) -> (r: usize)
        ensures
            r == self.spec_names().len(),
    {
        self.names.len()
    }

    /// The number of mount points in use.
    pub fn mount_count(&self) -> (r: usize)
        ensures
            r == self.spec_mounts().len(),
    {
        self.mounts.len()
    }
}

/// Whether the bytes of a name hold a NUL.
fn has_nul(b: &[u8]) -> (r: bool)
    ensures
        r == b@.contains(0u8),
{
    let mut i: usize = 0;
    while i < b.len()
        invariant
            i <= b@.len(),
            forall|k: int| 0 <= k < i ==> b@[k] != 0u8,
        decreases b@.len() - i,
    {
        if b[i] == 0u8 {
            assert(b@[i as int] == 0u8);
            return true;
        }
        i = i + 1;
    }
    false
}

/// A device the engine knows by name. Holding it is what allows a mount.
pub struct BlockDeviceRegisterHandle<T: BlockDeviceInterface> {
    device: BlockDevice<T>,
    name: Vec<u8>,
}

impl<T: BlockDeviceInterface> BlockDevice<T> {
    /// Registers the device under `name`. Fails with `InvalidArgument` for an
    /// empty name or one holding a NUL, and with `FileExists` for a name that
    /// is already registered; the table is then unchanged.
    pub fn register(self, registry: &mut DeviceRegistry, name: String) -> (r: Result<
        BlockDeviceRegisterHandle<T>,
        Error,
    >)
        requires
            old(registry).wf(),
        ensures
            final(registry).wf(),
            final(registry).spec_mounts() == old(registry).spec_mounts(),
            match spec_register(old(registry).spec_names(), encode_utf8(name@)) {
                Ok(names) => r is Ok && final(registry).spec_names() == names
                    && r->Ok_0.spec_name() == spec_cstring(encode_utf8(name@))
                    && r->Ok_0.spec_device() == self,
                Err(e) => r == Err::<BlockDeviceRegisterHandle<T>, Error>(e)
                    && final(registry).spec_names() == old(registry).spec_names(),
            },
    {
        let bytes = name.as_str().as_bytes();
        if bytes.len() == 0 || has_nul(bytes) {
            return Err(Error::InvalidArgument);
        }
        let key = cstring_bytes(name.as_str());
        if contains_key(&registry.names, &key) {
            return Err(Error::FileExists);
        }
        let ghost before = registry.names@;
        registry.names.push(key.clone());
        assert(registry.names@.map_values(|k: Vec<u8>| k@) =~= before.map_values(
            |k: Vec<u8>| k@,
        ).push(key@));
        proof {
            lemma_push_absent(before.map_values(|k: Vec<u8>| k@), key@);
        }
        Ok(BlockDeviceRegisterHandle { device: self, name: key })
    }
}

impl<T: BlockDeviceInterface> BlockDeviceRegisterHandle<T> {
    /// The NUL-terminated name the device is registered under.
    pub closed spec fn spec_name(&self) -> Seq<u8> {
        self.name@
    }

    pub closed spec fn spec_device(&self) -> BlockDevice<T> {
        self.device
    }

    /// The NUL-terminated name the device is registered under.
    pub fn name(&self) -> (r: &Vec<u8>)
        ensures
            r@ == self.spec_name(),
    {
        &self.name
    }

    /// The registered device, for reading.
    pub fn device(&self) -> (r: &BlockDevice<T>)
        ensures
            *r == self.spec_device(),
    {
        &self.device
    }

    /// Takes the name out of the registry and hands the device back.
    pub fn unregister(self, registry: &mut DeviceRegistry) -> (r: BlockDevice<T>)
        requires
            old(registry).wf(),
            old(registry).spec_names().contains(self.spec_name()),
        ensures
            final(registry).wf(),
            r == self.spec_device(),
            final(registry).spec_names() == spec_remove_key(old(registry).spec_names(), self.spec_name()),
            final(registry).spec_mounts() == old(registry).spec_mounts(),
    {
        proof {
            lemma_remove_keeps_unique(registry.spec_names(), self.name@);
        }
        remove_key(&mut registry.names, &self.name);
        self.device
    }

    /// Mounts the device at `mount_point`, given as a user path.
    pub fn mount<'a>(&'a mut self, registry: &mut DeviceRegistry, mount_point: &str, read_only: bool) -> (r: Result<
        BlockDeviceMountHandle<'a, T>,
        Error,
    >)
        requires
            old(registry).wf(),
            old(registry).spec_names().contains(self.spec_name()),
        ensures
            final(registry).wf(),
            final(registry).spec_names() == old(registry).spec_names(),
            r is Err ==> final(self).spec_device().spec_record() == old(self).spec_device().spec_record(),
            r is Err ==> final(registry).spec_mounts() == old(registry).spec_mounts(),
            r matches Ok(h) ==> {
                &&& !old(registry).spec_mounts().contains(h.spec_mount_point())
                &&& final(registry).spec_mounts() == old(registry).spec_mounts().push(h.spec_mount_point())
                &&& exists|s: Seq<u8>| h.spec_mount_point() == spec_cstring_dir(s)
                &&& h.spec_read_only() == read_only
                &&& exists|c| opened_record(#[trigger] h.spec_record(), c)
            },
    {
        let key = to_cstring_dir(mount_point);
        self.mount_cstring(registry, key, read_only)
    }

    /// Mounts the device at a mount point already in the engine's directory
    /// form. A mount point in use fails with `FileExists`. Otherwise the
    /// engine opens the device, and a failure of that open is the error.
    pub fn mount_cstring<'a>(&'a mut self, registry: &mut DeviceRegistry, mount_point: Vec<u8>, read_only: bool) -> (r: Result<
        BlockDeviceMountHandle<'a, T>,
        Error,
    >)
        requires
            old(registry).wf(),
            old(registry).spec_names().contains(self.spec_name()),
        ensures
            final(registry).wf(),
            final(registry).spec_names() == old(registry).spec_names(),
            old(registry).spec_mounts().contains(mount_point@) ==> r == Err::<
                BlockDeviceMountHandle<'a, T>,
                Error,
            >(Error::FileExists),
            r is Err ==> final(self).spec_device().spec_record() == old(self).spec_device().spec_record(),
            r is Err ==> final(registry).spec_mounts() == old(registry).spec_mounts(),
            r matches Ok(h) ==> {
                &&& !old(registry).spec_mounts().contains(mount_point@)
                &&& final(registry).spec_mounts() == old(registry).spec_mounts().push(mount_point@)
                &&& h.spec_mount_point() == mount_point@
                &&& h.spec_read_only() == read_only
                &&& exists|c| opened_record(#[trigger] h.spec_record(), c)
            },
    {
        if contains_key(&registry.mounts, &mount_point) {
            return Err(Error::FileExists);
        }
        let status = self.device.open();
        if status != EOK {
            return match errno_to_result(status) {
                Ok(()) => Err(Error::InvalidError),
                Err(e) => Err(e),
            };
        }
        let ghost before = registry.mounts@;
        registry.mounts.push(mount_point.clone());
        assert(registry.mounts@.map_values(|k: Vec<u8>| k@) =~= before.map_values(
            |k: Vec<u8>| k@,
        ).push(mount_point@));
        proof {
            lemma_push_absent(before.map_values(|k: Vec<u8>| k@), mount_point@);
        }
        Ok(BlockDeviceMountHandle { owner: self, mount_point, read_only })
    }
}

/// A mounted volume. It holds its registered device borrowed, so the device
/// cannot be unregistered while the volume is mounted.
pub struct BlockDeviceMountHandle<'a, T: BlockDeviceInterface> {
    owner: &'a mut BlockDeviceRegisterHandle<T>,
    mount_point: Vec<u8>,
    read_only: bool,
}

impl<'a, T: BlockDeviceInterface> BlockDeviceMountHandle<'a, T> {
    /// The mount point in the engine's directory form.
    pub closed spec fn spec_mount_point(&self) -> Seq<u8> {
        self.mount_point@
    }

    pub closed spec fn spec_read_only(&self) -> bool {
        self.read_only
    }

    /// The interface of the mounted device.
    pub closed spec fn spec_interface(&self) -> T {
        self.owner.spec_device().spec_interface()
    }

    /// The descriptor of the mounted device.
    pub closed spec fn spec_record(&self) -> crate::device::DeviceRecord {
        self.owner.spec_device().spec_record()
    }

    /// The mount point in the engine's directory form.
    pub fn mount_point(&self) -> (r: &Vec<u8>)
        ensures
            r@ == self.spec_mount_point(),
    {
        &self.mount_point
    }

    /// Whether the volume was mounted read-only.
    pub fn read_only(&self) -> (r: bool)
        ensures
            r == self.spec_read_only(),
    {
        self.read_only
    }

    /// Unmounts the volume: the mount point is released and the engine
    /// closes the device; the result is what the interface's `close`
    /// reported. The registered device is free again afterwards,
    /// to be mounted anew or unregistered.
    pub fn umount(self, registry: &mut DeviceRegistry) -> (r: Result<(), Error>)
        requires
            old(registry).wf(),
        ensures
            final(registry).wf(),
            final(registry).spec_names() == old(registry).spec_names(),
            final(registry).spec_mounts() == spec_remove_key(old(registry).spec_mounts(), self.spec_mount_point()),
            r == self.spec_interface().spec_close_result(),
    {
        proof {
            lemma_remove_keeps_unique(registry.spec_mounts(), self.mount_point@);
        }
        remove_key(&mut registry.mounts, &self.mount_point);
        let ghost closing = self.spec_interface().spec_close_result();
        let status = self.owner.device.close();
        proof {
            lemma_result_round_trip(closing);
        }
        errno_to_result(status)
    }
}

/// Adding a key that a table lacks keeps its keys distinct.
proof fn lemma_push_absent(keys: Seq<Seq<u8>>, key: Seq<u8>)
    requires
        keys.no_duplicates(),
        !keys.contains(key),
    ensures
        keys.push(key).no_duplicates(),
{
    let after = keys.push(key);
    assert forall|i: int, j: int| 0 <= i < after.len() && 0 <= j < after.len() && i != j implies after[i] != after[j] by {
        if i < keys.len() && j < keys.len() {
            assert(after[i] == keys[i] && after[j] == keys[j]);
        } else if i < keys.len() {
            assert(after[i] == keys[i]);
        } else {
            assert(after[j] == keys[j]);
        }
    }
}

/// What is left after taking a key out was in the table before.
proof fn lemma_remove_within(keys: Seq<Seq<u8>>, key: Seq<u8>, x: Seq<u8>)
    requires
        spec_remove_key(keys, key).contains(x),
    ensures
        keys.contains(x),
    decreases keys.len(),
{
    reveal_with_fuel(Seq::filter, 1);
    if keys.len() > 0 {
        let rest = keys.drop_last();
        let kept = spec_remove_key(rest, key);
        if kept.contains(x) {
            lemma_remove_within(rest, key, x);
            let i = choose|i: int| 0 <= i < rest.len() && rest[i] == x;
            assert(keys[i] == x);
        } else {
            assert(x == keys.last()) by {
                let i = choose|i: int| 0 <= i < spec_remove_key(keys, key).len() && spec_remove_key(keys, key)[i] == x;
                if keys.last() != key {
                    assert(spec_remove_key(keys, key) == kept.push(keys.last()));
                    if i < kept.len() {
                        assert(kept[i] == x);
                    }
                } else {
                    assert(kept[i] == x);
                }
            }
            assert(keys[keys.len() - 1] == x);
        }
    }
}

/// Taking a key out of a table keeps its keys distinct.
proof fn lemma_remove_keeps_unique(keys: Seq<Seq<u8>>, key: Seq<u8>)
    requires
        keys.no_duplicates(),
    ensures
        spec_remove_key(keys, key).no_duplicates(),
    decreases keys.len(),
{
    reveal_with_fuel(Seq::filter, 1);
    if keys.len() > 0 {
        let rest = keys.drop_last();
        assert(rest.no_duplicates()) by {
            assert forall|i: int, j: int| 0 <= i < rest.len() && 0 <= j < rest.len() && i != j implies rest[i] != rest[j] by {
                assert(rest[i] == keys[i] && rest[j] == keys[j]);
            }
        }
        lemma_remove_keeps_unique(rest, key);
        let kept = spec_remove_key(rest, key);
        if keys.last() != key {
            assert(!kept.contains(keys.last())) by {
                if kept.contains(keys.last()) {
                    lemma_remove_within(rest, key, keys.last());
                    let i = choose|i: int| 0 <= i < rest.len() && rest[i] == keys.last();
                    assert(keys[i] == keys[keys.len() - 1]);
                }
            }
            lemma_push_absent(kept, keys.last());
        }
    }
}

/// Taking a key out of a table that does not hold it changes nothing.
proof fn lemma_remove_absent(keys: Seq<Seq<u8>>, key: Seq<u8>)
    requires
        !keys.contains(key),
    ensures
        spec_remove_key(keys, key) == keys,
    decreases keys.len(),
{
    reveal_with_fuel(Seq::filter, 1);
    if keys.len() > 0 {
        let rest = keys.drop_last();
        assert(forall|i: int| 0 <= i < rest.len() ==> rest[i] == keys[i]);
        assert(!rest.contains(key)) by {
            if rest.contains(key) {
                let i = choose|i: int| 0 <= i < rest.len() && rest[i] == key;
                assert(keys[i] == key);
            }
        }
        lemma_remove_absent(rest, key);
        assert(keys.last() != key) by {
            assert(keys[keys.len() - 1] == keys.last());
        }
        assert(rest.push(keys.last()) =~= keys);
    }
}

/// Registering a name that is already registered fails with `FileExists`,
/// while a different valid name that is not registered yet still succeeds.
pub proof fn lemma_register_collision(names: Seq<Seq<u8>>, a: Seq<u8>, b: Seq<u8>)
    requires
        spec_register(names, a) is Ok,
    ensures
        spec_register(spec_register(names, a)->Ok_0, a) == Err::<Seq<Seq<u8>>, Error>(Error::FileExists),
        valid_name(b) && b != a && !names.contains(spec_cstring(b)) ==> spec_register(
            spec_register(names, a)->Ok_0,
            b,
        ) is Ok,
        valid_name(b) && b != a && !names.contains(spec_cstring(b)) ==> {
            let both = spec_register(spec_register(names, a)->Ok_0, b)->Ok_0;
            both.contains(spec_cstring(a)) && both.contains(spec_cstring(b))
        },
{
    let after = names.push(spec_cstring(a));
    assert(after[names.len() as int] == spec_cstring(a));
    if valid_name(b) && b != a && !names.contains(spec_cstring(b)) {
        assert(spec_cstring(a) != spec_cstring(b)) by {
            if spec_cstring(a) == spec_cstring(b) {
                assert(a =~= spec_cstring(a).drop_last());
                assert(b =~= spec_cstring(b).drop_last());
            }
        }
        let both = after.push(spec_cstring(b));
        assert(both[names.len() as int] == spec_cstring(a));
        assert(both[after.len() as int] == spec_cstring(b));
        assert(!after.contains(spec_cstring(b))) by {
            if after.contains(spec_cstring(b)) {
                let i = choose|i: int| 0 <= i < after.len() && after[i] == spec_cstring(b);
                if i < names.len() {
                    assert(names[i] == spec_cstring(b));
                }
            }
        }
    }
}

/// Registering a name and then unregistering it leaves the name table as
/// it was.
pub proof fn lemma_register_unregister(names: Seq<Seq<u8>>, name: Seq<u8>)
    requires
        spec_register(names, name) is Ok,
    ensures
        spec_remove_key(spec_register(names, name)->Ok_0, spec_cstring(name)) == names,
{
    reveal_with_fuel(Seq::filter, 1);
    let k = spec_cstring(name);
    let after = names.push(k);
    assert(after.drop_last() =~= names);
    lemma_remove_absent(names, k);
}

/// Mounting at a free mount point and then unmounting leaves the mount
/// table as it was.
pub proof fn lemma_mount_umount(mounts: Seq<Seq<u8>>, mount_point: Seq<u8>)
    requires
        !mounts.contains(mount_point),
    ensures
        spec_remove_key(mounts.push(mount_point), mount_point) == mounts,
{
    reveal_with_fuel(Seq::filter, 1);
    assert(mounts.push(mount_point).drop_last() =~= mounts);
    lemma_remove_absent(mounts, mount_point);
}

} // verus!
