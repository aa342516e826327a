# plunger

Tools to inspect and clean the work directory of a [nextflow](https://nextflow.io/)
pipeline, written in Verus.

- `src/` is the verified library: compiling and applying the patterns that read
  nextflow logs and `.command.run` files (`pattern`, `utils`), finding the name of
  a task (`task`, `plunger`), reading a run from its log and deciding which work
  folders a run no longer uses (`run`), tallying task folders (`task`), the sizes
  shown to people (`size`) and the command line options (`cli`).
- `app/` is the `plunger` program: argument parsing, logging, reading files and
  walking directories, measuring and removing folders.
- `tests/` runs the library on concrete inputs.

```bash
$ plunger task                 # size of the task folders per process
$ plunger task -t A            # ... and remove those of process A
$ plunger task --file .command.run --limit-lines 100 ./work   # another work directory
$ plunger -v clean             # what purging the unused folders would free
$ plunger -v clean -f          # purge them
```
