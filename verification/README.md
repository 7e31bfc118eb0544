# virtio_fs

A virtio-fs device for a microVM, served by a vhost-user backend, with its logic
verified in Verus.

The library in `src/` holds every decision of the device and makes no system call.
Where the device needs the outside world, the library names the call to make next
and takes what became of it.

* `fs_config`: the configurations of the fs devices, one for each mount tag.
* `request`: the request that inserts a configuration.
* `config_space`: the layout of the configuration space, reading and writing it.
* `device`: the device as the guest sees it, with its features.
* `setup`: the creation of a device.
* `activate`, `activate_laws`: the calls of an activation, and what holds of them.
* `fs_handler`: interrupts of the backend.
* `slave_handler`, `slave_laws`: requests of the backend, and what holds of them.
* `error`: the errors.

`app/` makes the calls, over traits for the vhost-user protocol, guest memory and
the event loop. `tests/` runs the library.
