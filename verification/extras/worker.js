// Web Worker of the browser pool: answers each task message
// { taskId, payload: { id, payload } } with
// { type: "result", taskId, result: { id, result } }, or with
// { type: "error", taskId, error } when the message is not a task.
self.onmessage = (event) => {
  const { taskId, payload } = event.data || {};
  if (!payload || typeof payload.payload !== "string") {
    self.postMessage({ type: "error", taskId, error: "Malformed task" });
    return;
  }
  const bytes = new TextEncoder().encode(payload.payload).length;
  self.postMessage({
    type: "result",
    taskId,
    result: { id: payload.id, result: `processed: ${payload.payload} (len=${bytes})` },
  });
};
