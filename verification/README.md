# midi_plugins

MIDI effect plugins for VST hosts — a note generator, a MIDI delay, a note
off delay, a maximum note duration, a note filter, a note fan-out and an
arpeggiator fed with patterns by a companion pattern receiver — with their
logic verified by Verus.

- `src/` is the verified library: MIDI messages and their classification,
  time-ordered message queues, the note off delay scheduler and its
  polyphony limit, the devices and pattern engine of the arpeggiator, the
  per-plugin processing cores, the state machines of the pattern link and of the
  arpeggiator's workers, and the parameters. Each public function states what it returns or changes;
  properties that span several calls are stated and proved as `lemma_*`
  proof functions.
- `app/` is the host side: the VST `Plugin` and `PluginParameters`
  implementations, the floating-point parameter scales, the UDP sockets that
  carry patterns, and a small host program.
- `tests/` exercise the library on concrete values.
