# debugfs

A verified library for files in debugfs, and for the files and file descriptors of the kernel.

The library makes the decisions and never calls into the kernel itself. What is to be asked of the
kernel comes out of it as values of `call::Call`; what the kernel answered goes back in as plain
numbers. The contracts say exactly which calls are asked for, in which order, and what becomes of
every answer.

- `src/` is the library. `file` wraps files and reservations of file descriptors, with the laws of
  reference counting in `ownership`. `operations` and `vtable` are how a driver provides a file and
  how the kernel uses it. `debugfs` registers entries, and `tree` keeps every directory in place for
  as long as there is something in it. `sample` and `module` are a small module built on all of this.
- `tests/` runs the library on concrete values.
- `app/` is the kernel side: the declarations of the C functions, the callbacks, owners that give back
  files, descriptors and entries when they go out of scope, and the entry points of the module.
