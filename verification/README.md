# smart_release_version

Which version a crate gets next when a workspace is released, verified with
[Verus](https://github.com/verus-lang/verus).

- `bump`: the steps from one version to the next, by number, by pre-release
  counter or by what the commits since the last release ask for.
- `release`: the next release of a package, from its manifest, its commits and
  what the registry has of it.
- `bumpable`: tests that tell whether the other two can be called.
- `context`, `history`: what those choices depend on.
- `version`, `identifier`, `decimal`, `order`: semantic versions, their text
  and their order.
- `laws`: what holds of the steps as a whole.
- `semver_calls`: the calls into the `semver` crate, whose contracts are taken
  from that crate and not proved.

`app/` puts the library between `cargo metadata` and the release command.

| Choice                      | from `1.2.3`          | from `2.0.0-beta.2`    |
|-----------------------------|-----------------------|------------------------|
| `major` with label `beta`   | `2.0.0-beta.0`        | `3.0.0-beta.0`         |
| `minor` with label `beta`   | `1.3.0-beta.0`        | `2.1.0-beta.0`         |
| `patch` with label `beta`   | `1.2.4-beta.0`        | `2.0.1-beta.0`         |
| `prerelease`                | an error              | `2.0.0-beta.3`         |
| `prerelease` with label `rc`| an error              | `2.0.0-rc.0`           |
| `major`                     | `2.0.0`               | `2.0.0`                |
| `auto` with label `beta`    | computed from commits | computed, or counted up|
| `auto`                      | computed from commits | `2.0.0`                |

Without commits to release an `auto` choice changes nothing, but that without a
label it still releases a pre-release.
