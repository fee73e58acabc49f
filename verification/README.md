# phm

A PHP version manager for macOS and Linux: per-shell version switching,
automatic version detection from `.php-version` and `composer.json`, shims
for non-interactive shells, and managed static PHP builds on Linux.

`src/` is the library, verified with Verus: version and Composer constraint
reading and resolution, discovery of installed versions, the per-shell
directories and shims, shell code generation, the download site's listing
and archives, Termux's resolver setup, and the decisions behind every
subcommand. `app/` is the `phm` program around it: the command line, and the
file, process and network work the library's decisions call for.
